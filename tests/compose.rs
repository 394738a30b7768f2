use raster::color::Rgb;
use raster::frame::{merge, Contribution, FrameBuffer};

fn c(index: i32, depth: u32, r: u8) -> Contribution {
    Contribution { index, depth, color: Rgb::new(r, 0, 0) }
}

#[test]
fn nearer_contribution_wins() {
    let mut fb = FrameBuffer::new();
    fb.absorb(&vec![c(5, 10, 1), c(5, 3, 2), c(5, 7, 3)]);
    assert_eq!(fb.color_at(5), Some(Rgb::new(2, 0, 0)));
    assert_eq!(fb.color_at(6), None);
}

#[test]
fn equal_depth_keeps_the_smaller_color() {
    let mut fb = FrameBuffer::new();
    fb.absorb(&vec![c(1, 4, 9), c(1, 4, 1)]);
    assert_eq!(fb.color_at(1), Some(Rgb::new(1, 0, 0)));
    let mut fb = FrameBuffer::new();
    fb.absorb(&vec![c(1, 4, 1), c(1, 4, 9)]);
    assert_eq!(fb.color_at(1), Some(Rgb::new(1, 0, 0)));
}

#[test]
fn equal_depth_ties_do_not_depend_on_order() {
    let a = vec![Contribution { index: 2, depth: 7, color: Rgb::new(5, 9, 1) }];
    let b = vec![Contribution { index: 2, depth: 7, color: Rgb::new(5, 3, 200) }];
    let ab = merge(&vec![a.clone(), b.clone()]);
    let ba = merge(&vec![b, a]);
    assert_eq!(ab.color_at(2), Some(Rgb::new(5, 3, 200)));
    assert_eq!(ba.color_at(2), Some(Rgb::new(5, 3, 200)));
}

#[test]
fn merge_is_order_independent() {
    let a = vec![c(1, 5, 1), c(2, 9, 1), c(3, 2, 1)];
    let b = vec![c(1, 7, 2), c(2, 4, 2), c(4, 1, 2)];
    let ab = merge(&vec![a.clone(), b.clone()]);
    let ba = merge(&vec![b.clone(), a.clone()]);
    for k in 0..6 {
        assert_eq!(ab.color_at(k), ba.color_at(k));
    }
    assert_eq!(ab.color_at(1), Some(Rgb::new(1, 0, 0)));
    assert_eq!(ab.color_at(2), Some(Rgb::new(2, 0, 0)));
    assert_eq!(ab.color_at(3), Some(Rgb::new(1, 0, 0)));
    assert_eq!(ab.color_at(4), Some(Rgb::new(2, 0, 0)));
    assert_eq!(ab.color_at(0), None);
}

#[test]
fn merge_is_grouping_independent() {
    let a = vec![c(1, 5, 1), c(2, 9, 1)];
    let b = vec![c(1, 7, 2), c(2, 4, 2)];
    let d = vec![c(1, 6, 3), c(2, 1, 3)];
    let one = merge(&vec![a.clone(), b.clone(), d.clone()]);
    let mut joined = a.clone();
    joined.extend(b.iter().copied());
    let two = merge(&vec![joined, d.clone()]);
    let mut tail = b.clone();
    tail.extend(d.iter().copied());
    let three = merge(&vec![a.clone(), tail]);
    for k in 0..4 {
        assert_eq!(one.color_at(k), two.color_at(k));
        assert_eq!(one.color_at(k), three.color_at(k));
    }
    assert_eq!(one.color_at(1), Some(Rgb::new(1, 0, 0)));
    assert_eq!(one.color_at(2), Some(Rgb::new(3, 0, 0)));
}

#[test]
fn rows_cover_the_inner_cells() {
    let width = 5;
    let height = 4;
    let mut fb = FrameBuffer::new();
    // pixel (x, y) = (2, 1) sits at 2 + 1 * 5
    fb.absorb(&vec![c(7, 1, 8), c(0, 1, 9)]);
    let rows = fb.rows(width, height);
    assert_eq!(rows.len(), 2);
    assert!(rows.iter().all(|r| r.len() == 3));
    assert_eq!(rows[0][1], Some(Rgb::new(8, 0, 0)));
    let drawn = rows.iter().flatten().filter(|c| c.is_some()).count();
    assert_eq!(drawn, 1);
}

#[test]
fn rows_of_tiny_screen_are_empty() {
    let fb = FrameBuffer::new();
    assert!(fb.rows(1, 1).is_empty());
    assert!(fb.rows(5, 2).is_empty());
    assert_eq!(fb.rows(1, 3), vec![Vec::<Option<Rgb>>::new()]);
}
