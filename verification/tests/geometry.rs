//! Hit-test strictness and coordinate-mapper behavior on concrete values.
//! Coordinates are in tenths of a world unit throughout.

use card_fan::mapper::screen_to_world;
use card_fan::{BoundingBox, Camera, Vec2, Vec3};

#[test]
fn hit_test_strictness_on_x_edge() {
    // A box centered at the origin, 100 by 200 world units.
    let b = BoundingBox::new(Vec3::new(0, 0, 0), Vec2::new(1000, 2000));
    // 49.9 units: inside. 50 units: exactly on the edge, outside. 50.1: outside.
    assert!(b.point_in(Vec2::new(499, 0)));
    assert!(!b.point_in(Vec2::new(500, 0)));
    assert!(!b.point_in(Vec2::new(501, 0)));
}

#[test]
fn hit_test_strictness_on_y_edge() {
    let b = BoundingBox::new(Vec3::new(0, 0, 0), Vec2::new(1000, 2000));
    assert!(b.point_in(Vec2::new(0, 999)));
    assert!(!b.point_in(Vec2::new(0, 1000)));
    assert!(!b.point_in(Vec2::new(0, -1000)));
}

#[test]
fn zero_size_box_contains_nothing() {
    let b = BoundingBox::new(Vec3::new(0, 0, 0), Vec2::new(0, 0));
    assert!(!b.point_in(Vec2::new(0, 0)));
    assert!(!b.point_in(Vec2::new(1, 0)));
}

#[test]
fn off_center_box() {
    let b = BoundingBox::new(Vec3::new(1000, -500, 2), Vec2::new(200, 200));
    assert!(b.point_in(Vec2::new(1000, -500)));
    assert!(b.point_in(Vec2::new(1099, -401)));
    assert!(!b.point_in(Vec2::new(1100, -500)));
}

#[test]
fn mapper_center_of_viewport_is_camera_center() {
    let cam = Camera { center: Vec2::new(0, 0), half_extents: Vec2::new(4000, 3000) };
    let w = screen_to_world(Vec2::new(4000, 3000), Vec2::new(8000, 6000), cam);
    assert_eq!(w, Vec2::new(0, 0));
}

#[test]
fn mapper_corners_reach_camera_extents() {
    let cam = Camera { center: Vec2::new(0, 0), half_extents: Vec2::new(4000, 3000) };
    let lo = screen_to_world(Vec2::new(0, 0), Vec2::new(8000, 6000), cam);
    assert_eq!(lo, Vec2::new(-4000, -3000));
    let hi = screen_to_world(Vec2::new(8000, 6000), Vec2::new(8000, 6000), cam);
    assert_eq!(hi, Vec2::new(4000, 3000));
}

#[test]
fn mapper_quarter_point_and_offset_camera() {
    let cam = Camera { center: Vec2::new(100, -200), half_extents: Vec2::new(4000, 3000) };
    let w = screen_to_world(Vec2::new(2000, 1500), Vec2::new(8000, 6000), cam);
    // Normalized to (-1/2, -1/2): half an extent below the center on each axis.
    assert_eq!(w, Vec2::new(100 - 2000, -200 - 1500));
}
