//! The drag controller: the press half and the per-tick update half of the
//! press → drag → release lifecycle.
//!
//! On a button press every non-dragging card whose box contains the pointer
//! starts dragging, keeping the offset from pointer to card center fixed for
//! the whole drag; overlapping cards all start dragging together. Each tick a
//! dragging card follows the pointer at that offset and is raised above the
//! idle layer; every other card has its depth reset to the idle layer. With
//! no pointer a press starts nothing, and a dragging card keeps its place.

use vstd::prelude::*;

use crate::cards::{
    abs_le, card_is_dragging, card_wf, hand_wf, CardState, CardView, Hand, COORD_LIMIT,
    DRAG_DEPTH, IDLE_DEPTH,
};
use crate::geometry::{Vec2, Vec3};
use crate::hover::{card_hit, card_hit_exec};

verus! {

/// A pointer position the controller accepts: absent, or with both
/// coordinates within `COORD_LIMIT`.
pub open spec fn pointer_wf(wp: Option<Vec2>) -> bool {
    match wp {
        Some(p) => abs_le(p.x as int, COORD_LIMIT as int) && abs_le(p.y as int, COORD_LIMIT as int),
        None => true,
    }
}

/// The state a press gives card `j`: a non-dragging card under the pointer
/// starts dragging with offset pointer-to-center; everything else is kept.
pub open spec fn press_step(cards: Seq<CardView>, j: int, wp: Option<Vec2>) -> CardState {
    if !card_is_dragging(cards[j]) && card_hit(cards[j], wp) {
        match wp {
            Some(p) => CardState::Dragging(
                Vec2 { x: (cards[j].pos.x - p.x) as i64, y: (cards[j].pos.y - p.y) as i64 },
            ),
            None => cards[j].state,
        }
    } else {
        cards[j].state
    }
}

/// One whole press pass over the hand.
pub open spec fn press_pass(cards: Seq<CardView>, wp: Option<Vec2>) -> Seq<CardView> {
    Seq::new(cards.len(), |j: int| CardView { state: press_step(cards, j, wp), ..cards[j] })
}

/// The position the per-tick drag update gives card `j`: a dragging card
/// follows the pointer at its stored offset and is raised to the drag depth;
/// a non-dragging card keeps its place at the idle depth.
pub open spec fn drag_step(cards: Seq<CardView>, j: int, wp: Option<Vec2>) -> Vec3 {
    match cards[j].state {
        CardState::Dragging(off) => match wp {
            Some(p) => Vec3 {
                x: (p.x + off.x) as i64,
                y: (p.y + off.y) as i64,
                z: DRAG_DEPTH,
            },
            None => Vec3 { x: cards[j].pos.x, y: cards[j].pos.y, z: DRAG_DEPTH },
        },
        _ => Vec3 { x: cards[j].pos.x, y: cards[j].pos.y, z: IDLE_DEPTH },
    }
}

/// One whole drag-update pass over the hand.
pub open spec fn drag_pass(cards: Seq<CardView>, wp: Option<Vec2>) -> Seq<CardView> {
    Seq::new(cards.len(), |j: int| CardView { pos: drag_step(cards, j, wp), ..cards[j] })
}

impl Hand {
    /// React to a pointer-button press: every non-dragging card whose box
    /// contains the pointer transitions to dragging.
    pub fn press(&mut self, pointer: Option<Vec2>)
        requires
            hand_wf(old(self)@),
            pointer_wf(pointer),
        ensures
            hand_wf(final(self)@),
            final(self)@.next_id == old(self)@.next_id,
            final(self)@.cards =~= press_pass(old(self)@.cards, pointer),
    {
        let ghost oldc = self@.cards;
        let n = self.cards.len();
        let mut i: usize = 0;
        while i < n
            invariant
                hand_wf(old(self)@),
                pointer_wf(pointer),
                n == oldc.len(),
                oldc == old(self)@.cards,
                self@.cards.len() == n,
                self@.next_id == old(self)@.next_id,
                0 <= i <= n,
                forall|k: int|
                    0 <= k < i ==> #[trigger] self@.cards[k] == press_pass(oldc, pointer)[k],
                forall|k: int| i <= k < n ==> #[trigger] self@.cards[k] == oldc[k],
            decreases n - i,
        {
            proof {
                assert(self@.cards[i as int] == oldc[i as int]);
                assert(card_wf(oldc[i as int]));
            }
            if !matches!(self.cards[i].state, CardState::Dragging(_)) {
                let hit = card_hit_exec(&self.cards[i], pointer);
                if hit {
                    if let Some(p) = pointer {
                        let off = Vec2::new(self.cards[i].pos.x - p.x, self.cards[i].pos.y - p.y);
                        let ghost pre = self@.cards;
                        self.cards[i].state = CardState::Dragging(off);
                        proof {
                            assert(self@.cards[i as int] == press_pass(oldc, pointer)[i as int]);
                            assert forall|k: int| 0 <= k < n && k != i as int implies #[trigger] self@.cards[k] == pre[k] by {}
                        }
                    }
                } else {
                    proof {
                        assert(self@.cards[i as int] == press_pass(oldc, pointer)[i as int]);
                    }
                }
            } else {
                proof {
                    assert(self@.cards[i as int] == press_pass(oldc, pointer)[i as int]);
                }
            }
            i += 1;
        }
        proof {
            assert(final(self)@.cards =~= press_pass(oldc, pointer));
            assert forall|k: int| 0 <= k < n implies card_wf(#[trigger] final(self)@.cards[k]) by {
                assert(card_wf(oldc[k]));
            }
        }
    }

    /// Per-tick drag update: move every dragging card to pointer plus offset
    /// at the drag depth, and reset every other card to the idle depth.
    pub fn drag_update(&mut self, pointer: Option<Vec2>)
        requires
            hand_wf(old(self)@),
            pointer_wf(pointer),
        ensures
            hand_wf(final(self)@),
            final(self)@.next_id == old(self)@.next_id,
            final(self)@.cards =~= drag_pass(old(self)@.cards, pointer),
    {
        let ghost oldc = self@.cards;
        let n = self.cards.len();
        let mut i: usize = 0;
        while i < n
            invariant
                hand_wf(old(self)@),
                pointer_wf(pointer),
                n == oldc.len(),
                oldc == old(self)@.cards,
                self@.cards.len() == n,
                self@.next_id == old(self)@.next_id,
                0 <= i <= n,
                forall|k: int|
                    0 <= k < i ==> #[trigger] self@.cards[k] == drag_pass(oldc, pointer)[k],
                forall|k: int| i <= k < n ==> #[trigger] self@.cards[k] == oldc[k],
            decreases n - i,
        {
            proof {
                assert(self@.cards[i as int] == oldc[i as int]);
                assert(card_wf(oldc[i as int]));
            }
            let ghost pre = self@.cards;
            let cur = self.cards[i].pos;
            match self.cards[i].state {
                CardState::Dragging(off) => match pointer {
                    Some(p) => {
                        self.cards[i].pos = Vec3::new(p.x + off.x, p.y + off.y, DRAG_DEPTH);
                    },
                    None => {
                        self.cards[i].pos = Vec3::new(cur.x, cur.y, DRAG_DEPTH);
                    },
                },
                _ => {
                    self.cards[i].pos = Vec3::new(cur.x, cur.y, IDLE_DEPTH);
                },
            }
            proof {
                assert(self@.cards[i as int] == drag_pass(oldc, pointer)[i as int]);
                assert forall|k: int| 0 <= k < n && k != i as int implies #[trigger] self@.cards[k] == pre[k] by {}
            }
            i += 1;
        }
        proof {
            assert(final(self)@.cards =~= drag_pass(oldc, pointer));
            assert forall|k: int| 0 <= k < n implies card_wf(#[trigger] final(self)@.cards[k]) by {
                assert(card_wf(oldc[k]));
            }
        }
    }
}

/// Law: with the pointer absent a press changes nothing.
pub proof fn lemma_no_pointer_no_press(cards: Seq<CardView>)
    ensures
        press_pass(cards, None) =~= cards,
{
    assert forall|j: int| 0 <= j < cards.len() implies press_pass(cards, None)[j] == cards[j] by {
        assert(!card_hit(cards[j], None));
    }
}

} // verus!
