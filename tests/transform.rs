use ledstrip::apa102::ARGB8;
use ledstrip::display::{Identity, Transform as FrameTransform};
use ledstrip::transform::Transform;

fn px(v: u8) -> ARGB8 {
    ARGB8::new(v, v, v, v)
}

fn frame(n: u8) -> Vec<ARGB8> {
    (0..n).map(px).collect()
}

#[test]
fn identity_layout_keeps_frame() {
    let t = Transform::new(3, 4, vec![false; 3], vec![0, 1, 2]);
    let f = frame(12);
    assert_eq!(t.apply(&f), f);
}

#[test]
fn reversed_strip_only_flips_its_segment() {
    let t = Transform::new(3, 3, vec![false, true, false], vec![0, 1, 2]);
    let out = t.apply(&frame(9));
    assert_eq!(out, vec![px(0), px(1), px(2), px(5), px(4), px(3), px(6), px(7), px(8)]);
}

#[test]
fn permutation_moves_whole_segments() {
    let t = Transform::new(3, 2, vec![false; 3], vec![2, 0, 1]);
    let out = t.apply(&frame(6));
    assert_eq!(out, vec![px(4), px(5), px(0), px(1), px(2), px(3)]);
}

#[test]
fn wiring_of_four_strips() {
    let t = Transform::new(4, 2, vec![false, true, false, true], vec![0, 2, 1, 3]);
    let out = t.apply(&frame(8));
    assert_eq!(out, vec![px(0), px(1), px(5), px(4), px(2), px(3), px(7), px(6)]);
}

#[test]
fn empty_layout_gives_empty_frame() {
    let t = Transform::new(0, 144, vec![], vec![]);
    assert!(t.apply(&frame(4)).is_empty());
}

#[test]
fn transform_through_trait_matches_apply() {
    let t = Transform::new(2, 2, vec![true, false], vec![1, 0]);
    let f = frame(4);
    assert_eq!(FrameTransform::transform(&t, &f), vec![px(3), px(2), px(0), px(1)]);
}

#[test]
fn write_pixel_lands_in_transformed_slot() {
    let t = Transform::new(2, 3, vec![false, true], vec![1, 0]);
    let mut f = vec![px(0); 6];
    t.write_pixel(&mut f, 0, 2, px(9));
    assert_eq!(f[3 + 2], px(9));
    t.write_pixel(&mut f, 1, 1, px(7));
    assert_eq!(f[3 - 1], px(7));
    assert_eq!(f.iter().filter(|c| **c != px(0)).count(), 2);
}

#[test]
fn identity_transform_copies_and_ignores_writes() {
    let f = frame(5);
    assert_eq!(Identity.transform(&f), f);
    let mut g = f.clone();
    Identity.write_pixel(&mut g, 1, 1, px(99));
    assert_eq!(g, f);
}
