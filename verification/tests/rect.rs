use gfx_core::rect::Rect;

#[test]
fn new_and_zero_build_the_given_rectangle() {
    let r = Rect::new(3, 4, 10, 20);
    assert_eq!(r, Rect { x: 3, y: 4, w: 10, h: 20 });
    assert_eq!(Rect::zero(), Rect { x: 0, y: 0, w: 0, h: 0 });
}

#[test]
fn right_and_bottom_are_the_far_edges() {
    let r = Rect::new(3, 4, 10, 20);
    assert_eq!(r.right(), 13);
    assert_eq!(r.bottom(), 24);
}

#[test]
fn sub_corner_emits_right_then_bottom() {
    let r = Rect::new(10, 20, 100, 80);
    let parts = r.sub_corner(30, 50);
    assert_eq!(parts.len(), 2);
    // Right remainder spans the full free height.
    assert_eq!(parts[0], Rect { x: 40, y: 20, w: 70, h: 80 });
    // Bottom remainder spans only the placed width.
    assert_eq!(parts[1], Rect { x: 10, y: 70, w: 30, h: 30 });
    // The three parts tile the free rectangle exactly.
    let area: u64 = parts.iter().map(|p| p.w as u64 * p.h as u64).sum();
    assert_eq!(area + 30 * 50, 100 * 80);
}

#[test]
fn sub_corner_with_exact_edges_emits_fewer_parts() {
    let r = Rect::new(0, 0, 100, 80);
    let right_only = r.sub_corner(30, 80);
    assert_eq!(right_only.len(), 1);
    assert_eq!(right_only[0], Rect { x: 30, y: 0, w: 70, h: 80 });
    let bottom_only = r.sub_corner(100, 50);
    assert_eq!(bottom_only.len(), 1);
    assert_eq!(bottom_only[0], Rect { x: 0, y: 50, w: 100, h: 30 });
    let nothing = r.sub_corner(100, 80);
    assert_eq!(nothing.len(), 0);
}

#[test]
fn sub_carves_a_hole_into_four_sides() {
    let outer = Rect::new(0, 0, 100, 100);
    let hole = Rect::new(20, 30, 40, 50);
    let parts = outer.sub(&hole);
    assert_eq!(parts.len(), 4);
    assert_eq!(parts[0], Rect { x: 0, y: 0, w: 20, h: 100 });
    assert_eq!(parts[1], Rect { x: 60, y: 0, w: 40, h: 100 });
    assert_eq!(parts[2], Rect { x: 0, y: 0, w: 100, h: 30 });
    assert_eq!(parts[3], Rect { x: 0, y: 80, w: 100, h: 20 });
}

#[test]
fn sub_of_a_corner_hole_emits_two_sides() {
    let outer = Rect::new(0, 0, 100, 100);
    let hole = Rect::new(0, 0, 40, 50);
    let parts = outer.sub(&hole);
    assert_eq!(parts.len(), 2);
    assert_eq!(parts[0], Rect { x: 40, y: 0, w: 60, h: 100 });
    assert_eq!(parts[1], Rect { x: 0, y: 50, w: 100, h: 50 });
}

#[test]
fn sub_of_the_whole_rectangle_emits_nothing() {
    let outer = Rect::new(5, 5, 50, 50);
    let parts = outer.sub(&outer.clone());
    assert_eq!(parts.len(), 0);
}
