//! The fan layout engine: each tick it recomputes the target position of
//! every card that is still in the hand and not being dragged.
//!
//! A card at index `i` of a hand of `n` sits at the centered half-integer
//! offset `k = i - (n-1)/2`, so the fan is symmetric about `x = 0`: an odd
//! hand's middle card sits exactly at the center and an even hand straddles
//! it. Horizontally a card sits at `k` spacings; vertically it droops by
//! `|k|` droop steps, and the hovered card alone is lifted. Everything is
//! recomputed from scratch, so the fan re-centers by itself after a removal.
//! The hovered card is also scaled up a notch; all others are at unit scale.

use vstd::prelude::*;

use crate::cards::{
    card_is_dragging, card_is_hovered, card_wf, hand_wf, CardState, CardView, Hand, SCALE_HOVER,
    SCALE_IDLE,
};
use crate::geometry::{Vec2, Vec3};

verus! {

/// Half of the horizontal fan spacing, in tenths of a world unit: one full
/// spacing (90 units) per whole index step.
pub const FAN_SPACING_HALF: i64 = 450;

/// Half of the per-step droop, in tenths of a world unit: outer cards hang
/// a full droop step (15 units) lower per index step from the center.
pub const FAN_DROOP_HALF: i64 = 75;

/// Vertical lift of the hovered card, in tenths of a world unit (10 units).
pub const HOVER_LIFT: i64 = 100;

/// Twice the centered fan offset of index `i` in a hand of `n`:
/// `2 * (i - (n-1)/2)`.
pub open spec fn fan_offset2(i: int, n: int) -> int {
    2 * i - (n - 1)
}

/// Fan x position of index `i` in a hand of `n`.
pub open spec fn fan_x(i: int, n: int) -> int {
    fan_offset2(i, n) * FAN_SPACING_HALF
}

/// Fan y position of index `i` in a hand of `n`: droop by distance from the
/// center, plus the hover lift for the hovered card.
pub open spec fn fan_y(i: int, n: int, hovered: bool) -> int {
    -vstd::math::abs(fan_offset2(i, n)) * FAN_DROOP_HALF + if hovered {
        HOVER_LIFT as int
    } else {
        0
    }
}

/// The position the layout gives card `j`: dragging cards are left alone;
/// every other card goes to its fan position, depth untouched.
pub open spec fn layout_step(cards: Seq<CardView>, j: int) -> Vec3 {
    if card_is_dragging(cards[j]) {
        cards[j].pos
    } else {
        Vec3 {
            x: fan_x(j, cards.len() as int) as i64,
            y: fan_y(j, cards.len() as int, card_is_hovered(cards[j])) as i64,
            z: cards[j].pos.z,
        }
    }
}

/// One whole layout pass over the hand.
pub open spec fn layout_pass(cards: Seq<CardView>) -> Seq<CardView> {
    Seq::new(cards.len(), |j: int| CardView { pos: layout_step(cards, j), ..cards[j] })
}

/// The scale the hover feedback gives card `j`: the hovered card pops up a
/// notch, every other card is at unit scale.
pub open spec fn scale_step(cards: Seq<CardView>, j: int) -> Vec2 {
    if card_is_hovered(cards[j]) {
        Vec2 { x: SCALE_HOVER, y: SCALE_HOVER }
    } else {
        Vec2 { x: SCALE_IDLE, y: SCALE_IDLE }
    }
}

/// One whole scale pass over the hand.
pub open spec fn scale_pass(cards: Seq<CardView>) -> Seq<CardView> {
    Seq::new(cards.len(), |j: int| CardView { scale: scale_step(cards, j), ..cards[j] })
}

impl Hand {
    /// Recompute the fan position of every non-dragging card.
    pub fn apply_layout(&mut self)
        requires
            hand_wf(old(self)@),
        ensures
            hand_wf(final(self)@),
            final(self)@.next_id == old(self)@.next_id,
            final(self)@.cards =~= layout_pass(old(self)@.cards),
    {
        let ghost oldc = self@.cards;
        let n = self.cards.len();
        let mut i: usize = 0;
        while i < n
            invariant
                hand_wf(old(self)@),
                n == oldc.len(),
                oldc == old(self)@.cards,
                self@.cards.len() == n,
                self@.next_id == old(self)@.next_id,
                0 <= i <= n,
                forall|k: int| 0 <= k < i ==> #[trigger] self@.cards[k] == layout_pass(oldc)[k],
                forall|k: int| i <= k < n ==> #[trigger] self@.cards[k] == oldc[k],
            decreases n - i,
        {
            proof {
                assert(self@.cards[i as int] == oldc[i as int]);
                assert(card_wf(oldc[i as int]));
            }
            if !matches!(self.cards[i].state, CardState::Dragging(_)) {
                let off2: i64 = 2 * (i as i64) - (n as i64 - 1);
                let x: i64 = off2 * FAN_SPACING_HALF;
                let abs2: i64 = if off2 < 0 {
                    -off2
                } else {
                    off2
                };
                let hovered = matches!(self.cards[i].state, CardState::Hovered);
                let y: i64 = -abs2 * FAN_DROOP_HALF + if hovered {
                    HOVER_LIFT
                } else {
                    0
                };
                let z = self.cards[i].pos.z;
                let ghost pre = self@.cards;
                self.cards[i].pos = Vec3::new(x, y, z);
                proof {
                    assert(x == fan_x(i as int, n as int));
                    assert(y == fan_y(i as int, n as int, card_is_hovered(oldc[i as int])));
                    assert(self@.cards[i as int] == layout_pass(oldc)[i as int]);
                    assert forall|k: int| 0 <= k < n && k != i as int implies #[trigger] self@.cards[k] == pre[k] by {}
                }
            } else {
                proof {
                    assert(self@.cards[i as int] == layout_pass(oldc)[i as int]);
                }
            }
            i += 1;
        }
        proof {
            assert(final(self)@.cards =~= layout_pass(oldc));
            assert forall|k: int| 0 <= k < n implies card_wf(#[trigger] final(self)@.cards[k]) by {
                assert(card_wf(oldc[k]));
            }
        }
    }

    /// Apply the hover scale feedback to every card.
    pub fn apply_hover_scale(&mut self)
        requires
            hand_wf(old(self)@),
        ensures
            hand_wf(final(self)@),
            final(self)@.next_id == old(self)@.next_id,
            final(self)@.cards =~= scale_pass(old(self)@.cards),
    {
        let ghost oldc = self@.cards;
        let n = self.cards.len();
        let mut i: usize = 0;
        while i < n
            invariant
                hand_wf(old(self)@),
                n == oldc.len(),
                oldc == old(self)@.cards,
                self@.cards.len() == n,
                self@.next_id == old(self)@.next_id,
                0 <= i <= n,
                forall|k: int| 0 <= k < i ==> #[trigger] self@.cards[k] == scale_pass(oldc)[k],
                forall|k: int| i <= k < n ==> #[trigger] self@.cards[k] == oldc[k],
            decreases n - i,
        {
            proof {
                assert(self@.cards[i as int] == oldc[i as int]);
                assert(card_wf(oldc[i as int]));
            }
            let ghost pre = self@.cards;
            if matches!(self.cards[i].state, CardState::Hovered) {
                self.cards[i].scale = Vec2::new(SCALE_HOVER, SCALE_HOVER);
            } else {
                self.cards[i].scale = Vec2::new(SCALE_IDLE, SCALE_IDLE);
            }
            proof {
                assert(self@.cards[i as int] == scale_pass(oldc)[i as int]);
                assert forall|k: int| 0 <= k < n && k != i as int implies #[trigger] self@.cards[k] == pre[k] by {}
            }
            i += 1;
        }
        proof {
            assert(final(self)@.cards =~= scale_pass(oldc));
            assert forall|k: int| 0 <= k < n implies card_wf(#[trigger] final(self)@.cards[k]) by {
                assert(card_wf(oldc[k]));
            }
        }
    }
}

/// Law: the fan is symmetric about its center — mirrored indices get x
/// positions of opposite sign and equal magnitude, and droop equally.
pub proof fn lemma_fan_symmetric(i: int, n: int, hovered: bool)
    requires
        0 <= i < n,
    ensures
        fan_x(i, n) == -fan_x(n - 1 - i, n),
        fan_y(i, n, hovered) == fan_y(n - 1 - i, n, hovered),
{
}

/// Law: an odd hand's middle card sits exactly at the fan's center.
pub proof fn lemma_fan_center(n: int)
    requires
        n >= 1,
        n % 2 == 1,
    ensures
        fan_x((n - 1) / 2, n) == 0,
        fan_y((n - 1) / 2, n, false) == 0,
{
}

} // verus!
