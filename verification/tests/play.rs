//! Play resolution against evaluation outcomes, the target's text
//! invariant, and the evaluator call string.

use card_fan::numtext::i64_to_string;
use card_fan::play::{apply_outcome, build_call, resolve_play};
use card_fan::{CardState, Hand, Target, Vec2};

#[test]
fn target_starts_at_zero() {
    let t = Target::new();
    assert_eq!(t.value, 0);
    assert_eq!(t.text, "0");
}

#[test]
fn numeric_outcome_becomes_the_new_target() {
    // The formula "x+1" evaluated against 5 yields 6.
    let mut t = Target::new();
    t.set_value(5);
    apply_outcome(&mut t, Some(6));
    assert_eq!(t.value, 6);
    assert_eq!(t.text, "6");
    // "Math.sqrt(x+10)" against 6 yields round(sqrt(16)) = 4.
    apply_outcome(&mut t, Some(4));
    assert_eq!(t.value, 4);
    assert_eq!(t.text, "4");
}

#[test]
fn failing_evaluation_leaves_the_target_unchanged() {
    let mut t = Target::new();
    t.set_value(41);
    apply_outcome(&mut t, None);
    assert_eq!(t.value, 41);
    assert_eq!(t.text, "41");
}

#[test]
fn target_text_follows_negative_and_extreme_values() {
    let mut t = Target::new();
    t.set_value(-123);
    assert_eq!(t.value, -123);
    assert_eq!(t.text, "-123");
    t.set_value(i64::MAX);
    assert_eq!(t.text, "9223372036854775807");
    t.set_value(i64::MIN);
    assert_eq!(t.text, "-9223372036854775808");
}

#[test]
fn decimal_rendering_is_exact() {
    assert_eq!(i64_to_string(0), "0");
    assert_eq!(i64_to_string(7), "7");
    assert_eq!(i64_to_string(10), "10");
    assert_eq!(i64_to_string(909), "909");
    assert_eq!(i64_to_string(-1), "-1");
    assert_eq!(i64_to_string(100000), "100000");
}

#[test]
fn evaluator_call_wraps_the_formula_and_value() {
    assert_eq!(build_call("x+1", 5), "(function(x) { return x+1; })(5)");
    assert_eq!(
        build_call("Math.abs(x)", -7),
        "(function(x) { return Math.abs(x); })(-7)"
    );
}

#[test]
fn resolving_a_play_removes_the_card_and_moves_the_target() {
    let mut h = Hand::new();
    let a = h.deal("x+1");
    let b = h.deal("x-1");
    let c = h.deal("Math.abs(x)");
    h.apply_layout();
    // Drag the middle card: only its box contains the origin.
    h.press(Some(Vec2::new(0, 0)));
    assert!(matches!(h.get(1).state, CardState::Dragging(_)));
    let mut t = Target::new();
    t.set_value(5);
    // "x+1" against 5 yields 6.
    resolve_play(&mut h, &mut t, b, Some(6));
    assert_eq!(h.len(), 2);
    assert_eq!(h.position_index(b), None);
    assert_eq!(h.position_index(a), Some(0));
    assert_eq!(h.position_index(c), Some(1));
    assert_eq!(t.value, 6);
    assert_eq!(t.text, "6");
}

#[test]
fn resolving_an_already_removed_identity_changes_nothing() {
    let mut h = Hand::new();
    let a = h.deal("x+1");
    let b = h.deal("x-1");
    let mut t = Target::new();
    t.set_value(3);
    resolve_play(&mut h, &mut t, b, Some(2));
    assert_eq!(h.len(), 1);
    assert_eq!(t.value, 2);
    // The same identity again, as a doubled release would: no fault, and
    // neither the hand nor the target moves.
    resolve_play(&mut h, &mut t, b, Some(99));
    assert_eq!(h.len(), 1);
    assert_eq!(t.value, 2);
    assert_eq!(h.position_index(a), Some(0));
}
