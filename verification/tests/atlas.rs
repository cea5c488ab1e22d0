use gfx_core::atlas::{AtlasError, TexAtlas};
use gfx_core::rect::{Rect, BACKING_SIZE};
use gfx_core::token::{CompletionToken, WaitPlan};

fn overlap(a: &Rect, b: &Rect) -> bool {
    !(a.x as u64 + a.w as u64 <= b.x as u64
        || b.x as u64 + b.w as u64 <= a.x as u64
        || a.y as u64 + a.h as u64 <= b.y as u64
        || b.y as u64 + b.h as u64 <= a.y as u64)
}

#[test]
fn first_allocation_opens_a_page_at_origin() {
    let mut atlas = TexAtlas::new();
    assert_eq!(atlas.num_pages(), 0);
    let (sub, tok) = atlas.allocate(32, 32).unwrap();
    assert_eq!(atlas.num_pages(), 1);
    assert_eq!(sub.tex, 0);
    assert_eq!(sub.rect, Rect { x: 0, y: 0, w: 32, h: 32 });
    // A new backing texture's clear is pending: waiting would block.
    assert!(matches!(tok, CompletionToken::SingleOp { op: 0 }));
    assert!(matches!(tok.wait(), WaitPlan::BlockOn { .. }));
}

#[test]
fn reuse_is_row_major_and_already_complete() {
    let mut atlas = TexAtlas::new();
    let (a, _) = atlas.allocate(32, 32).unwrap();
    let (b, tb) = atlas.allocate(32, 32).unwrap();
    let (c, tc) = atlas.allocate(32, 32).unwrap();
    assert_eq!((a.tex, a.rect.x, a.rect.y), (0, 0, 0));
    assert_eq!((b.tex, b.rect.x, b.rect.y), (0, 32, 0));
    assert_eq!((c.tex, c.rect.x, c.rect.y), (0, 64, 0));
    // Reused regions carry the already-complete token.
    assert!(matches!(tb, CompletionToken::Complete));
    assert!(matches!(tc.wait(), WaitPlan::Immediate));
}

#[test]
fn oversize_requests_fail_for_any_atlas_state() {
    let mut atlas = TexAtlas::new();
    assert_eq!(atlas.allocate(BACKING_SIZE, 10), Err(AtlasError::RequestTooLarge));
    assert_eq!(atlas.allocate(10, BACKING_SIZE), Err(AtlasError::RequestTooLarge));
    assert_eq!(atlas.allocate(BACKING_SIZE + 1, 1), Err(AtlasError::RequestTooLarge));
    assert_eq!(atlas.num_pages(), 0);
    // The same holds once pages exist, and the atlas stays unchanged.
    let _ = atlas.allocate(32, 32).unwrap();
    assert_eq!(atlas.num_pages(), 1);
    assert_eq!(atlas.allocate(BACKING_SIZE, BACKING_SIZE), Err(AtlasError::RequestTooLarge));
    assert_eq!(atlas.num_pages(), 1);
}

#[test]
fn exact_fit_rectangles_are_not_reused() {
    let mut atlas = TexAtlas::new();
    let _ = atlas.allocate(32, 32).unwrap();
    // The free list now holds the right remainder (32, 0, 2016, 2048) and
    // the bottom remainder (0, 32, 32, 2016). A request 32 wide fits the
    // bottom remainder exactly in width, so that rectangle is skipped even
    // though it was inserted later; the right remainder is taken.
    let (sub, _) = atlas.allocate(32, 100).unwrap();
    assert_eq!(sub.tex, 0);
    assert_eq!(sub.rect, Rect { x: 32, y: 0, w: 32, h: 100 });
}

#[test]
fn largest_allowed_request_fits_a_fresh_page() {
    let mut atlas = TexAtlas::new();
    let (sub, _) = atlas.allocate(BACKING_SIZE - 1, BACKING_SIZE - 1).unwrap();
    assert_eq!(sub.tex, 0);
    assert_eq!(sub.rect, Rect { x: 0, y: 0, w: BACKING_SIZE - 1, h: BACKING_SIZE - 1 });
}

#[test]
fn sequential_small_allocations_never_overlap_and_never_fail() {
    // 64 * 64 = 4096 requests of 32x32 against 2048x2048 backing textures.
    // The strict-inequality reuse policy leaves the exact-width and
    // exact-height remainders unused, so each page takes one row of 63
    // placements; the placement order is deterministic and row-major.
    let mut atlas = TexAtlas::new();
    let mut placements: Vec<(usize, Rect)> = Vec::new();
    for _ in 0..4096 {
        let (sub, _) = atlas.allocate(32, 32).unwrap();
        placements.push((sub.tex, sub.rect));
    }
    assert_eq!(placements[0], (0, Rect { x: 0, y: 0, w: 32, h: 32 }));
    assert_eq!(placements[1], (0, Rect { x: 32, y: 0, w: 32, h: 32 }));
    assert_eq!(placements[2], (0, Rect { x: 64, y: 0, w: 32, h: 32 }));
    // The 64th request no longer fits the first page and opens the second.
    assert_eq!(placements[63], (1, Rect { x: 0, y: 0, w: 32, h: 32 }));
    assert_eq!(atlas.num_pages(), 66);
    for i in 0..placements.len() {
        for j in (i + 1)..placements.len() {
            if placements[i].0 == placements[j].0 {
                assert!(!overlap(&placements[i].1, &placements[j].1));
            }
        }
    }
}

#[test]
fn mixed_sizes_never_overlap_within_a_page() {
    let mut atlas = TexAtlas::new();
    let sizes = [
        (100, 40),
        (300, 300),
        (32, 32),
        (1, 1),
        (700, 20),
        (20, 700),
        (1024, 1024),
        (2000, 5),
        (5, 2000),
        (640, 480),
    ];
    let mut placements: Vec<(usize, Rect)> = Vec::new();
    for &(w, h) in sizes.iter() {
        let (sub, _) = atlas.allocate(w, h).unwrap();
        assert_eq!((sub.rect.w, sub.rect.h), (w, h));
        placements.push((sub.tex, sub.rect));
    }
    for i in 0..placements.len() {
        for j in (i + 1)..placements.len() {
            if placements[i].0 == placements[j].0 {
                assert!(!overlap(&placements[i].1, &placements[j].1));
            }
        }
    }
}

#[test]
fn a_zero_size_request_is_allowed_and_placed() {
    let mut atlas = TexAtlas::new();
    let (sub, _) = atlas.allocate(0, 0).unwrap();
    assert_eq!(sub.tex, 0);
    assert_eq!(sub.rect, Rect { x: 0, y: 0, w: 0, h: 0 });
    // A later real placement still starts at the origin region's split.
    let (next, _) = atlas.allocate(32, 32).unwrap();
    assert_eq!(next.tex, 0);
    assert_eq!((next.rect.w, next.rect.h), (32, 32));
}
