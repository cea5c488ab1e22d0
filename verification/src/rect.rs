//! Axis-aligned pixel rectangles and the corner-split rule used by the
//! texture atlas.
//!
//! A free rectangle is split, after a placement is carved out of its origin
//! corner, into a right remainder spanning the full free height and a bottom
//! remainder spanning only the placed width. The three parts tile the free
//! rectangle exactly: they are pairwise disjoint and cover every point of it.

use vstd::prelude::*;

verus! {

/// Width and height, in pixels, of every backing texture of the atlas.
pub const BACKING_SIZE: u32 = 2048;

/// An axis-aligned rectangle, in pixels, within one backing texture.
#[derive(Clone, Copy, PartialEq, Eq, Structural, Debug)]
pub struct Rect {
    pub x: u32,
    pub y: u32,
    pub w: u32,
    pub h: u32,
}

/// The point `(px, py)` lies inside `r`.
pub open spec fn rect_has_point(r: Rect, px: int, py: int) -> bool {
    &&& r.x <= px < r.x + r.w
    &&& r.y <= py < r.y + r.h
}

/// `a` and `b` are separated along one axis; no point lies in both.
pub open spec fn rects_disjoint(a: Rect, b: Rect) -> bool {
    ||| a.x + a.w <= b.x
    ||| b.x + b.w <= a.x
    ||| a.y + a.h <= b.y
    ||| b.y + b.h <= a.y
}

/// Every point of `inner` lies inside `outer`.
pub open spec fn rect_contains(outer: Rect, inner: Rect) -> bool {
    &&& outer.x <= inner.x
    &&& inner.x + inner.w <= outer.x + outer.w
    &&& outer.y <= inner.y
    &&& inner.y + inner.h <= outer.y + outer.h
}

/// Area of `r`, in pixels.
pub open spec fn rect_area(r: Rect) -> int {
    r.w * r.h
}

/// The rectangle placed at the origin corner of `free` by a `(w, h)` request.
pub open spec fn placed_rect(free: Rect, w: u32, h: u32) -> Rect {
    Rect { x: free.x, y: free.y, w: w, h: h }
}

/// Remainder to the right of the placement: full free height.
pub open spec fn right_remainder(free: Rect, w: u32) -> Rect {
    Rect { x: (free.x + w) as u32, y: free.y, w: (free.w - w) as u32, h: free.h }
}

/// Remainder below the placement: only the placed width.
pub open spec fn bottom_remainder(free: Rect, w: u32, h: u32) -> Rect {
    Rect { x: free.x, y: (free.y + h) as u32, w: w, h: (free.h - h) as u32 }
}

/// The free rectangles emitted when `(w, h)` is carved out of the origin
/// corner of `free`: the right remainder when some width is left over, then
/// the bottom remainder when some height is left over.
pub open spec fn split_remainders(free: Rect, w: u32, h: u32) -> Seq<Rect> {
    let right = if w < free.w { seq![right_remainder(free, w)] } else { Seq::<Rect>::empty() };
    let bottom = if h < free.h { seq![bottom_remainder(free, w, h)] } else { Seq::<Rect>::empty() };
    right + bottom
}

/// Disjoint rectangles share no point.
pub proof fn lemma_disjoint_no_common_point(a: Rect, b: Rect)
    requires
        rects_disjoint(a, b),
    ensures
        forall|px: int, py: int| !(rect_has_point(a, px, py) && rect_has_point(b, px, py)),
{
}

/// A rectangle inside `outer` is disjoint from whatever `outer` is disjoint
/// from.
pub proof fn lemma_contained_disjoint(inner: Rect, outer: Rect, other: Rect)
    requires
        rect_contains(outer, inner),
        rects_disjoint(outer, other),
    ensures
        rects_disjoint(inner, other),
        rects_disjoint(other, inner),
{
}

/// Containment carries over bounds: a rectangle inside one that fits the
/// backing texture fits it too.
pub proof fn lemma_contained_in_backing(inner: Rect, outer: Rect)
    requires
        rect_contains(outer, inner),
        outer.x + outer.w <= BACKING_SIZE,
        outer.y + outer.h <= BACKING_SIZE,
    ensures
        inner.x + inner.w <= BACKING_SIZE,
        inner.y + inner.h <= BACKING_SIZE,
{
}

/// Corner-split law: for a request `(w, h)` that fits strictly inside `free`,
/// the placed rectangle and the two remainders are pairwise disjoint, each
/// lies inside `free`, together they cover every point of `free`, and their
/// areas sum to the area of `free`.
pub proof fn lemma_corner_split_tiles(free: Rect, w: u32, h: u32)
    requires
        w < free.w,
        h < free.h,
        free.x + free.w <= u32::MAX,
        free.y + free.h <= u32::MAX,
    ensures
        rects_disjoint(placed_rect(free, w, h), right_remainder(free, w)),
        rects_disjoint(placed_rect(free, w, h), bottom_remainder(free, w, h)),
        rects_disjoint(right_remainder(free, w), bottom_remainder(free, w, h)),
        rect_contains(free, placed_rect(free, w, h)),
        rect_contains(free, right_remainder(free, w)),
        rect_contains(free, bottom_remainder(free, w, h)),
        forall|px: int, py: int|
            rect_has_point(free, px, py) <==> {
                ||| rect_has_point(placed_rect(free, w, h), px, py)
                ||| rect_has_point(right_remainder(free, w), px, py)
                ||| rect_has_point(bottom_remainder(free, w, h), px, py)
            },
        rect_area(placed_rect(free, w, h)) + rect_area(right_remainder(free, w))
            + rect_area(bottom_remainder(free, w, h)) == rect_area(free),
{
    assert(rect_area(placed_rect(free, w, h)) + rect_area(right_remainder(free, w))
        + rect_area(bottom_remainder(free, w, h)) == rect_area(free)) by (nonlinear_arith)
        requires
            w < free.w,
            h < free.h,
            rect_area(placed_rect(free, w, h)) == w * h,
            rect_area(right_remainder(free, w)) == (free.w - w) * free.h,
            rect_area(bottom_remainder(free, w, h)) == w * (free.h - h),
            rect_area(free) == free.w * free.h,
    {
    }
}

impl Rect {
    /// A rectangle from its origin and size.
    pub fn new(x: u32, y: u32, w: u32, h: u32) -> (r: Rect)
        ensures
            r == (Rect { x, y, w, h }),
    {
        Rect { x, y, w, h }
    }

    /// The empty rectangle at the origin.
    pub fn zero() -> (r: Rect)
        ensures
            r == (Rect { x: 0u32, y: 0u32, w: 0u32, h: 0u32 }),
    {
        Rect { x: 0, y: 0, w: 0, h: 0 }
    }

    /// The first column to the right of the rectangle.
    pub fn right(&self) -> (r: u32)
        requires
            self.x + self.w <= u32::MAX,
        ensures
            r == self.x + self.w,
    {
        self.x + self.w
    }

    /// The first row below the rectangle.
    pub fn bottom(&self) -> (r: u32)
        requires
            self.y + self.h <= u32::MAX,
        ensures
            r == self.y + self.h,
    {
        self.y + self.h
    }

    /// The free rectangles left when `(w, h)` is carved out of the origin
    /// corner of `self`.
    pub fn sub_corner(&self, w: u32, h: u32) -> (r: Vec<Rect>)
        requires
            w <= self.w,
            h <= self.h,
            self.x + self.w <= u32::MAX,
            self.y + self.h <= u32::MAX,
        ensures
            r@ == split_remainders(*self, w, h),
    {
        let mut ret: Vec<Rect> = Vec::new();

        if w < self.w {
            ret.push(Rect { x: self.x + w, y: self.y, w: self.w - w, h: self.h });
        }
        if h < self.h {
            ret.push(Rect { x: self.x, y: self.y + h, w: w, h: self.h - h });
        }

        proof {
            assert(ret@ =~= split_remainders(*self, w, h));
        }
        ret
    }

    /// The parts of `self` not covered by `rhs`, for an `rhs` lying inside
    /// `self`: up to four rectangles whose union is exactly the set of points
    /// of `self` outside `rhs`.
    pub fn sub(&self, rhs: &Rect) -> (r: Vec<Rect>)
        requires
            rect_contains(*self, *rhs),
            self.x + self.w <= u32::MAX,
            self.y + self.h <= u32::MAX,
        ensures
            r@.len() <= 4,
            forall|i: int| 0 <= i < r@.len() ==> rect_contains(*self, #[trigger] r@[i]),
            forall|i: int| 0 <= i < r@.len() ==> rects_disjoint(#[trigger] r@[i], *rhs),
            forall|px: int, py: int|
                (exists|i: int| 0 <= i < r@.len() && rect_has_point(#[trigger] r@[i], px, py))
                    <==> (rect_has_point(*self, px, py) && !rect_has_point(*rhs, px, py)),
    {
        let mut ret: Vec<Rect> = Vec::new();

        let self_right = self.right();
        let self_bottom = self.bottom();
        let rhs_right = rhs.right();
        let rhs_bottom = rhs.bottom();

        if rhs.x > self.x {
            ret.push(Rect { x: self.x, y: self.y, w: rhs.x - self.x, h: self.h });
        }
        if rhs_right < self_right {
            ret.push(Rect { x: rhs_right, y: self.y, w: self_right - rhs_right, h: self.h });
        }
        if rhs.y > self.y {
            ret.push(Rect { x: self.x, y: self.y, w: self.w, h: rhs.y - self.y });
        }
        if rhs_bottom < self_bottom {
            ret.push(Rect { x: self.x, y: rhs_bottom, w: self.w, h: self_bottom - rhs_bottom });
        }

        proof {
            assert forall|px: int, py: int|
                (exists|i: int| 0 <= i < ret@.len() && rect_has_point(#[trigger] ret@[i], px, py))
                    <==> (rect_has_point(*self, px, py) && !rect_has_point(*rhs, px, py)) by {
                if rect_has_point(*self, px, py) && !rect_has_point(*rhs, px, py) {
                    if px < rhs.x {
                        assert(rect_has_point(ret@[0], px, py));
                    } else if px >= rhs.x + rhs.w {
                        let i = if rhs.x > self.x { 1int } else { 0int };
                        assert(rect_has_point(ret@[i], px, py));
                    } else if py < rhs.y {
                        let i = (if rhs.x > self.x { 1int } else { 0int })
                            + (if rhs.x + rhs.w < self.x + self.w { 1int } else { 0int });
                        assert(rect_has_point(ret@[i], px, py));
                    } else {
                        assert(py >= rhs.y + rhs.h);
                        let i = ret@.len() - 1;
                        assert(rect_has_point(ret@[i], px, py));
                    }
                }
            }
        }
        ret
    }
}

} // verus!
