//! Hover arbitration, the drag lifecycle, the fan layout and the tick
//! pipeline, on concrete scenarios. Coordinates are in tenths of a world
//! unit.

use card_fan::cards::{DRAG_DEPTH, IDLE_DEPTH, SCALE_HOVER, SCALE_IDLE};
use card_fan::{Camera, CardState, Hand, JsRuntime, SimulationState, TickInput, Vec2};

fn two_overlapping_cards() -> Hand {
    // After layout a two-card hand sits at x = -450 and x = 450; the boxes
    // are 1000 wide, so both contain the strip -50 < x < 50.
    let mut h = Hand::new();
    h.deal("x+1");
    h.deal("x-1");
    h.apply_layout();
    h
}

#[test]
fn hover_picks_exactly_one_of_two_overlapping_cards() {
    let mut h = two_overlapping_cards();
    h.update_hover(Some(Vec2::new(0, 0)));
    let hovered: Vec<usize> = (0..h.len())
        .filter(|&i| matches!(h.get(i).state, CardState::Hovered))
        .collect();
    // Exactly one winner; the documented tie-break is hand order.
    assert_eq!(hovered, vec![0]);
}

#[test]
fn hover_is_sticky_while_the_holder_is_still_hit() {
    let mut h = two_overlapping_cards();
    h.update_hover(Some(Vec2::new(0, 0)));
    assert!(matches!(h.get(0).state, CardState::Hovered));
    // Still inside both boxes: the first card keeps the hover.
    h.update_hover(Some(Vec2::new(20, 10)));
    assert!(matches!(h.get(0).state, CardState::Hovered));
    assert!(matches!(h.get(1).state, CardState::Idle));
    // Outside the holder's box, inside the other card's box: the holder
    // releases this tick, and the other card acquires on the next tick.
    h.update_hover(Some(Vec2::new(600, 0)));
    assert!(matches!(h.get(0).state, CardState::Idle));
    assert!(matches!(h.get(1).state, CardState::Idle));
    h.update_hover(Some(Vec2::new(600, 0)));
    assert!(matches!(h.get(0).state, CardState::Idle));
    assert!(matches!(h.get(1).state, CardState::Hovered));
}

#[test]
fn no_pointer_marks_all_cards_idle_and_press_does_nothing() {
    let mut h = two_overlapping_cards();
    h.update_hover(Some(Vec2::new(0, 0)));
    assert!(matches!(h.get(0).state, CardState::Hovered));
    h.update_hover(None);
    assert!(matches!(h.get(0).state, CardState::Idle));
    assert!(matches!(h.get(1).state, CardState::Idle));
    h.press(None);
    assert!(!matches!(h.get(0).state, CardState::Dragging(_)));
    assert!(!matches!(h.get(1).state, CardState::Dragging(_)));
}

#[test]
fn press_over_overlapping_boxes_drags_both() {
    let mut h = two_overlapping_cards();
    h.press(Some(Vec2::new(0, 0)));
    match h.get(0).state {
        CardState::Dragging(off) => assert_eq!(off, Vec2::new(-450, -75)),
        _ => panic!("first card should be dragging"),
    }
    match h.get(1).state {
        CardState::Dragging(off) => assert_eq!(off, Vec2::new(450, -75)),
        _ => panic!("second card should be dragging"),
    }
}

#[test]
fn dragged_card_follows_the_pointer_at_its_offset() {
    let mut h = two_overlapping_cards();
    // Only the second card's box contains x = 600.
    h.press(Some(Vec2::new(600, 0)));
    assert!(matches!(h.get(0).state, CardState::Idle));
    assert!(matches!(h.get(1).state, CardState::Dragging(_)));
    // offset = (450 - 600, -75 - 0) = (-150, -75)
    h.drag_update(Some(Vec2::new(1000, 500)));
    assert_eq!(h.get(1).pos.x, 850);
    assert_eq!(h.get(1).pos.y, 425);
    assert_eq!(h.get(1).pos.z, DRAG_DEPTH);
    // The idle card keeps its place at the idle depth.
    assert_eq!(h.get(0).pos.x, -450);
    assert_eq!(h.get(0).pos.y, -75);
    assert_eq!(h.get(0).pos.z, IDLE_DEPTH);
}

#[test]
fn fan_of_nine_centers_its_middle_card() {
    let mut h = Hand::new();
    for _ in 0..9 {
        h.deal("x+1");
    }
    h.apply_layout();
    assert_eq!(h.get(4).pos.x, 0);
    assert_eq!(h.get(4).pos.y, 0);
    assert_eq!(h.get(0).pos.x, -3600);
    assert_eq!(h.get(8).pos.x, 3600);
    assert_eq!(h.get(0).pos.x, -h.get(8).pos.x);
    assert_eq!(h.get(0).pos.y, -600);
    assert_eq!(h.get(8).pos.y, -600);
}

#[test]
fn fan_of_two_straddles_the_center() {
    let mut h = Hand::new();
    h.deal("x+1");
    h.deal("x-1");
    h.apply_layout();
    assert_eq!(h.get(0).pos.x, -450);
    assert_eq!(h.get(1).pos.x, 450);
    assert_eq!(h.get(0).pos.y, h.get(1).pos.y);
}

#[test]
fn hovered_card_is_lifted_and_scaled_up() {
    let mut h = two_overlapping_cards();
    h.update_hover(Some(Vec2::new(0, 0)));
    h.apply_layout();
    h.apply_hover_scale();
    // The hovered first card: droop -75 plus the lift 100.
    assert_eq!(h.get(0).pos.y, 25);
    assert_eq!(h.get(1).pos.y, -75);
    assert_eq!(h.get(0).scale, Vec2::new(SCALE_HOVER, SCALE_HOVER));
    assert_eq!(h.get(1).scale, Vec2::new(SCALE_IDLE, SCALE_IDLE));
}

#[test]
fn played_card_leaves_the_hand_and_the_fan_recenters() {
    let mut h = Hand::new();
    let a = h.deal("x+1");
    let b = h.deal("x-1");
    let c = h.deal("Math.abs(x)");
    h.apply_layout();
    // Only the middle card's box contains the origin.
    h.press(Some(Vec2::new(0, 0)));
    assert!(matches!(h.get(1).state, CardState::Dragging(_)));
    assert!(matches!(h.get(0).state, CardState::Idle));
    assert!(matches!(h.get(2).state, CardState::Idle));
    // The release removes the played identity; afterwards it is not
    // iterable and the layout only repositions the two survivors.
    assert!(h.remove(b));
    assert_eq!(h.len(), 2);
    assert_eq!(h.position_index(b), None);
    h.apply_layout();
    assert_eq!(h.position_index(a), Some(0));
    assert_eq!(h.position_index(c), Some(1));
    assert_eq!(h.get(0).pos.x, -450);
    assert_eq!(h.get(1).pos.x, 450);
}

#[test]
fn tick_maps_the_pointer_and_runs_the_stages() {
    let mut s = SimulationState::new();
    let rt = JsRuntime::new();
    s.hand.deal("x+1");
    let input = TickInput {
        cursor: Some(Vec2::new(4000, 3000)),
        viewport: Vec2::new(8000, 6000),
        camera: Camera { center: Vec2::new(0, 0), half_extents: Vec2::new(4000, 3000) },
        pressed: false,
        released: false,
    };
    s.tick(&input, &rt);
    // The cursor in the middle of the viewport maps to the world origin,
    // where the single dealt card sits: it is hovered, lifted and scaled.
    assert_eq!(s.world_pointer, Some(Vec2::new(0, 0)));
    assert!(matches!(s.hand.get(0).state, CardState::Hovered));
    assert_eq!(s.hand.get(0).pos.x, 0);
    assert_eq!(s.hand.get(0).pos.y, 100);
    assert_eq!(s.hand.get(0).scale, Vec2::new(SCALE_HOVER, SCALE_HOVER));
    assert_eq!(s.target.value, 0);
}

#[test]
fn tick_without_cursor_idles_everything() {
    let mut s = SimulationState::new();
    let rt = JsRuntime::new();
    s.hand.deal("x+1");
    let input = TickInput {
        cursor: None,
        viewport: Vec2::new(8000, 6000),
        camera: Camera { center: Vec2::new(0, 0), half_extents: Vec2::new(4000, 3000) },
        pressed: true,
        released: false,
    };
    s.tick(&input, &rt);
    assert_eq!(s.world_pointer, None);
    assert!(matches!(s.hand.get(0).state, CardState::Idle));
    assert_eq!(s.hand.get(0).pos.z, IDLE_DEPTH);
}

#[test]
fn tick_release_with_nothing_dragging_changes_nothing() {
    let mut s = SimulationState::new();
    let rt = JsRuntime::new();
    s.hand.deal("x+1");
    s.hand.deal("x-1");
    let input = TickInput {
        cursor: None,
        viewport: Vec2::new(8000, 6000),
        camera: Camera { center: Vec2::new(0, 0), half_extents: Vec2::new(4000, 3000) },
        pressed: false,
        released: true,
    };
    s.tick(&input, &rt);
    assert_eq!(s.hand.len(), 2);
    assert_eq!(s.target.value, 0);
    assert_eq!(s.target.text, "0");
}
