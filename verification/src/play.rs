//! The play resolver: a released card is removed from the hand, its formula
//! is evaluated against the shared target by the JavaScript host, and a
//! numeric outcome becomes the new target value.
//!
//! The hand's change is exact and proved. The evaluator's outcome is outside
//! this crate's model, so resolution is split: the call itself promises
//! nothing, and [`apply_outcome`] states exactly what every possible outcome
//! does to the target. A failing or non-numeric evaluation leaves the target
//! unchanged; playing an identity that is already gone is a no-op.

use vstd::prelude::*;
use vstd::string::StringExecFns;

use crate::cards::{
    card_is_dragging, find_id, hand_wf, lemma_find_id, lemma_find_id_first, CardState, CardView,
    Hand,
};
use crate::numtext::{dec_string, i64_to_string};
use crate::runtime::{round_js_number, JsRuntime};
use crate::target::{target_wf, Target};

verus! {

/// The JavaScript expression a played card's formula is wrapped in: a
/// one-argument function applied to the current target value.
pub open spec fn call_expr(code: Seq<char>, v: int) -> Seq<char> {
    "(function(x) { return "@ + code + "; })("@ + dec_string(v) + ")"@
}

/// Build the evaluator call for `code` against the value `v`.
pub fn build_call(code: &str, v: i64) -> (s: String)
    ensures
        s@ =~= call_expr(code@, v as int),
{
    let mut s = String::from_str("(function(x) { return ");
    s.append(code);
    s.append("; })(");
    let num = i64_to_string(v);
    s.append(num.as_str());
    s.append(")");
    s
}

/// Apply an evaluation outcome to the target: a numeric outcome becomes the
/// new value, no outcome leaves the target unchanged; the rendered text
/// always matches the value.
pub fn apply_outcome(target: &mut Target, outcome: Option<i64>)
    requires
        target_wf(*old(target)),
    ensures
        target_wf(*final(target)),
        final(target).value == (match outcome {
            Some(n) => n,
            None => old(target).value,
        }),
{
    match outcome {
        Some(n) => target.set_value(n),
        None => {},
    }
}

/// Resolve a play whose evaluation outcome is already known: remove the
/// card with identity `id` from the hand and apply the outcome to the
/// target. Resolving an absent identity changes nothing; afterwards no card
/// with that identity is iterable either way.
pub fn resolve_play(hand: &mut Hand, target: &mut Target, id: u64, outcome: Option<i64>)
    requires
        hand_wf(old(hand)@),
        target_wf(*old(target)),
    ensures
        hand_wf(final(hand)@),
        target_wf(*final(target)),
        final(hand)@.next_id == old(hand)@.next_id,
        match find_id(old(hand)@.cards, id) {
            Some(i) => final(hand)@.cards =~= old(hand)@.cards.remove(i) && final(target).value
                == (match outcome {
                Some(n) => n,
                None => old(target).value,
            }),
            None => final(hand)@.cards =~= old(hand)@.cards && *final(target) == *old(target),
        },
        forall|k: int|
            0 <= k < final(hand)@.cards.len() ==> (#[trigger] final(hand)@.cards[k].id) != id,
{
    proof {
        lemma_find_id(old(hand)@.cards, id);
    }
    let removed = hand.remove(id);
    if removed {
        apply_outcome(target, outcome);
    }
}

/// Play the card with identity `id`: evaluate its formula against the
/// target through the JavaScript host, then resolve the play with the
/// outcome. Playing an absent identity changes nothing.
pub fn play_card(hand: &mut Hand, target: &mut Target, runtime: &JsRuntime, id: u64)
    requires
        hand_wf(old(hand)@),
        target_wf(*old(target)),
    ensures
        hand_wf(final(hand)@),
        target_wf(*final(target)),
        final(hand)@.next_id == old(hand)@.next_id,
        match find_id(old(hand)@.cards, id) {
            Some(i) => final(hand)@.cards =~= old(hand)@.cards.remove(i),
            None => final(hand)@.cards =~= old(hand)@.cards && *final(target) == *old(target),
        },
        forall|k: int|
            0 <= k < final(hand)@.cards.len() ==> (#[trigger] final(hand)@.cards[k].id) != id,
{
    let idx = hand.position_index(id);
    match idx {
        Some(i) => {
            proof {
                lemma_find_id(old(hand)@.cards, id);
            }
            let code = build_call(hand.get(i).code.as_str(), target.value);
            let res = runtime.eval(code.as_str());
            let outcome = match res {
                Ok(v) => round_js_number(&v),
                Err(_) => None,
            };
            resolve_play(hand, target, id, outcome);
        },
        None => {
            proof {
                lemma_find_id(old(hand)@.cards, id);
            }
        },
    }
}

/// The cards that survive a release: the non-dragging ones, in hand order.
pub open spec fn released_pass(cards: Seq<CardView>) -> Seq<CardView>
    decreases cards.len(),
{
    if cards.len() == 0 {
        Seq::empty()
    } else if card_is_dragging(cards.last()) {
        released_pass(cards.drop_last())
    } else {
        released_pass(cards.drop_last()).push(cards.last())
    }
}

/// No card in `cards` is dragging.
pub open spec fn no_dragging(cards: Seq<CardView>) -> bool {
    forall|i: int| 0 <= i < cards.len() ==> !card_is_dragging(#[trigger] cards[i])
}

/// With no dragging card, a release keeps the whole hand as it is.
pub proof fn lemma_released_no_dragging(cards: Seq<CardView>)
    requires
        no_dragging(cards),
    ensures
        released_pass(cards) =~= cards,
    decreases cards.len(),
{
    if cards.len() > 0 {
        assert(!card_is_dragging(cards.last()));
        assert(no_dragging(cards.drop_last()));
        lemma_released_no_dragging(cards.drop_last());
    }
}

/// React to a pointer-button release: every dragging card is played, in
/// hand order; exactly the non-dragging cards survive, in order. With no
/// dragging card, nothing at all changes.
pub fn release_all(hand: &mut Hand, target: &mut Target, runtime: &JsRuntime)
    requires
        hand_wf(old(hand)@),
        target_wf(*old(target)),
    ensures
        hand_wf(final(hand)@),
        target_wf(*final(target)),
        final(hand)@.next_id == old(hand)@.next_id,
        final(hand)@.cards =~= released_pass(old(hand)@.cards),
        no_dragging(old(hand)@.cards) ==> final(hand)@.cards =~= old(hand)@.cards
            && *final(target) == *old(target),
{
    let ghost orig = old(hand)@.cards;
    let mut i: usize = 0;
    let ghost mut p: int = 0;
    while i < hand.len()
        invariant
            hand_wf(hand@),
            target_wf(*target),
            hand@.next_id == old(hand)@.next_id,
            0 <= p <= orig.len(),
            i == released_pass(orig.take(p)).len(),
            hand@.cards =~= released_pass(orig.take(p)) + orig.skip(p),
            no_dragging(orig.take(p)) ==> *target == *old(target),
        decreases orig.len() - p,
    {
        proof {
            assert(orig.take(p + 1).drop_last() =~= orig.take(p));
            assert(orig.take(p + 1).last() == orig[p]);
            assert(hand@.cards[i as int] == orig[p]);
        }
        if matches!(hand.get(i).state, CardState::Dragging(_)) {
            let id = hand.get(i).id;
            proof {
                assert(card_is_dragging(orig[p]));
                assert forall|k: int| 0 <= k < i implies #[trigger] hand@.cards[k].id != id by {
                    assert(hand@.cards[k].id != hand@.cards[i as int].id);
                }
                lemma_find_id_first(hand@.cards, id, i as int);
            }
            let ghost pre_cards = hand@.cards;
            play_card(hand, target, runtime, id);
            proof {
                assert(hand@.cards =~= pre_cards.remove(i as int));
                assert(orig.skip(p).drop_first() =~= orig.skip(p + 1));
                assert(hand@.cards =~= released_pass(orig.take(p + 1)) + orig.skip(p + 1));
                p = p + 1;
            }
        } else {
            proof {
                assert(!card_is_dragging(orig[p]));
                assert(released_pass(orig.take(p + 1)) =~= released_pass(orig.take(p)).push(
                    orig[p],
                ));
                assert(hand@.cards =~= released_pass(orig.take(p + 1)) + orig.skip(p + 1));
                p = p + 1;
            }
            i += 1;
        }
    }
    proof {
        assert(p == orig.len());
        assert(orig.take(p) =~= orig);
        if no_dragging(orig) {
            lemma_released_no_dragging(orig);
        }
    }
}

} // verus!
