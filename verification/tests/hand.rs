//! The card registry: dealing, lookup, removal and its idempotence.

use card_fan::cards::{CARD_HEIGHT, CARD_WIDTH, IDLE_DEPTH, SCALE_IDLE};
use card_fan::{CardState, Hand};

#[test]
fn deal_appends_with_fresh_identity() {
    let mut h = Hand::new();
    assert_eq!(h.len(), 0);
    let a = h.deal("x+1");
    let b = h.deal("x-1");
    assert_eq!(h.len(), 2);
    assert_eq!(a, 0);
    assert_eq!(b, 1);
    assert_eq!(h.get(0).code, "x+1");
    assert_eq!(h.get(1).code, "x-1");
    assert!(matches!(h.get(0).state, CardState::Idle));
    assert_eq!(h.get(0).pos.x, 0);
    assert_eq!(h.get(0).pos.y, 0);
    assert_eq!(h.get(0).pos.z, IDLE_DEPTH);
    assert_eq!(h.get(0).size.x, CARD_WIDTH);
    assert_eq!(h.get(0).size.y, CARD_HEIGHT);
    assert_eq!(h.get(0).scale.x, SCALE_IDLE);
}

#[test]
fn position_index_finds_cards_in_order() {
    let mut h = Hand::new();
    let a = h.deal("x+1");
    let b = h.deal("x-1");
    let c = h.deal("Math.abs(x)");
    assert_eq!(h.position_index(a), Some(0));
    assert_eq!(h.position_index(b), Some(1));
    assert_eq!(h.position_index(c), Some(2));
    assert_eq!(h.position_index(99), None);
}

#[test]
fn remove_shifts_later_cards_down() {
    let mut h = Hand::new();
    let a = h.deal("x+1");
    let b = h.deal("x-1");
    let c = h.deal("Math.abs(x)");
    assert!(h.remove(b));
    assert_eq!(h.len(), 2);
    assert_eq!(h.position_index(a), Some(0));
    assert_eq!(h.position_index(b), None);
    assert_eq!(h.position_index(c), Some(1));
}

#[test]
fn remove_absent_identity_is_a_no_op() {
    let mut h = Hand::new();
    let a = h.deal("x+1");
    let b = h.deal("x-1");
    assert!(h.remove(a));
    assert_eq!(h.len(), 1);
    // A second removal of the same identity: no fault, nothing changes.
    assert!(!h.remove(a));
    assert_eq!(h.len(), 1);
    assert_eq!(h.position_index(b), Some(0));
    // An identity that never existed.
    assert!(!h.remove(123));
    assert_eq!(h.len(), 1);
}

#[test]
fn identities_are_never_reused_after_removal() {
    let mut h = Hand::new();
    let a = h.deal("x+1");
    assert!(h.remove(a));
    let b = h.deal("x-1");
    assert_ne!(a, b);
}

#[test]
fn spawn_card_draws_from_the_deck() {
    let deck = ["x+1", "x-1", "Math.sqrt(x+10)", "Math.abs(x)", "Math.log(x)"];
    let mut h = Hand::new();
    for i in 0..20 {
        let id = h.spawn_card();
        assert_eq!(id, i);
        assert_eq!(h.len() as u64, i + 1);
        let code = &h.get(i as usize).code;
        assert!(deck.iter().any(|d| d == code));
        assert!(matches!(h.get(i as usize).state, CardState::Idle));
    }
}
