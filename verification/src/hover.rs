//! The hover arbiter: each tick it decides which single card, if any, is
//! hovered.
//!
//! Hover is sticky and exclusive. A card that already holds the hover keeps
//! it for as long as the pointer stays inside its box, even when the pointer
//! also lies inside an overlapping neighbour. Only when no card holds the
//! hover is a new one picked, and then the first card in hand order whose box
//! contains the pointer wins — hand order is the documented tie-break policy.
//! Dragging cards are left alone; with no pointer nothing is hovered.

use vstd::prelude::*;

use crate::cards::{
    card_is_dragging, card_is_hovered, card_wf, hand_wf, Card, CardState, CardView, Hand,
};
use crate::geometry::{box_contains, BoundingBox, Vec2};

verus! {

/// Whether the pointer is present and strictly inside the card's box.
pub open spec fn card_hit(c: CardView, wp: Option<Vec2>) -> bool {
    match wp {
        Some(p) => box_contains(c.pos, c.size, p),
        None => false,
    }
}

/// Some card currently holds the hover.
pub open spec fn holder_exists(cards: Seq<CardView>) -> bool {
    exists|i: int| 0 <= i < cards.len() && card_is_hovered(#[trigger] cards[i])
}

/// `j` is the first hovered card in hand order.
pub open spec fn is_first_hovered(cards: Seq<CardView>, j: int) -> bool {
    &&& 0 <= j < cards.len()
    &&& card_is_hovered(cards[j])
    &&& forall|k: int| 0 <= k < j ==> !card_is_hovered(#[trigger] cards[k])
}

/// `j` is a hover candidate: not dragging, and hit by the pointer.
pub open spec fn free_hit(cards: Seq<CardView>, j: int, wp: Option<Vec2>) -> bool {
    &&& 0 <= j < cards.len()
    &&& !card_is_dragging(cards[j])
    &&& card_hit(cards[j], wp)
}

/// `j` is the first hover candidate in hand order.
pub open spec fn is_first_free_hit(cards: Seq<CardView>, j: int, wp: Option<Vec2>) -> bool {
    &&& free_hit(cards, j, wp)
    &&& forall|k: int| 0 <= k < j ==> !free_hit(cards, k, wp)
}

/// The state the arbiter gives card `j`: dragging cards are untouched; a
/// present holder keeps the hover exactly while it is still hit; otherwise
/// the first candidate in hand order acquires it.
pub open spec fn hover_step(cards: Seq<CardView>, j: int, wp: Option<Vec2>) -> CardState {
    if card_is_dragging(cards[j]) {
        cards[j].state
    } else if holder_exists(cards) {
        if is_first_hovered(cards, j) && card_hit(cards[j], wp) {
            CardState::Hovered
        } else {
            CardState::Idle
        }
    } else if is_first_free_hit(cards, j, wp) {
        CardState::Hovered
    } else {
        CardState::Idle
    }
}

/// One whole arbitration pass over the hand.
pub open spec fn hover_pass(cards: Seq<CardView>, wp: Option<Vec2>) -> Seq<CardView> {
    Seq::new(cards.len(), |j: int| CardView { state: hover_step(cards, j, wp), ..cards[j] })
}

/// Strict hit test of one card against the (possibly absent) pointer.
pub(crate) fn card_hit_exec(c: &Card, pointer: Option<Vec2>) -> (r: bool)
    requires
        c@.size.x >= 0,
        c@.size.y >= 0,
    ensures
        r == card_hit(c@, pointer),
{
    match pointer {
        Some(p) => BoundingBox::new(c.pos, c.size).point_in(p),
        None => false,
    }
}

impl Hand {
    /// The first hovered card in hand order, if any card is hovered.
    fn find_holder(&self) -> (r: Option<usize>)
        ensures
            match r {
                Some(h) => is_first_hovered(self@.cards, h as int),
                None => !holder_exists(self@.cards),
            },
    {
        let n = self.cards.len();
        let mut j: usize = 0;
        while j < n
            invariant
                n == self@.cards.len(),
                0 <= j <= n,
                forall|k: int| 0 <= k < j ==> !card_is_hovered(#[trigger] self@.cards[k]),
            decreases n - j,
        {
            if matches!(self.cards[j].state, CardState::Hovered) {
                return Some(j);
            }
            j += 1;
        }
        None
    }

    /// Run one hover-arbitration pass against the current pointer.
    pub fn update_hover(&mut self, pointer: Option<Vec2>)
        requires
            hand_wf(old(self)@),
        ensures
            hand_wf(final(self)@),
            final(self)@.next_id == old(self)@.next_id,
            final(self)@.cards =~= hover_pass(old(self)@.cards, pointer),
    {
        let ghost oldc = self@.cards;
        let n = self.cards.len();
        let holder = self.find_holder();

        match holder {
            Some(h) => {
                let mut i: usize = 0;
                while i < n
                    invariant
                        hand_wf(old(self)@),
                        n == oldc.len(),
                        oldc == old(self)@.cards,
                        self@.cards.len() == n,
                        self@.next_id == old(self)@.next_id,
                        0 <= i <= n,
                        h < n,
                        is_first_hovered(oldc, h as int),
                        forall|k: int|
                            0 <= k < i ==> #[trigger] self@.cards[k] == hover_pass(
                                oldc,
                                pointer,
                            )[k],
                        forall|k: int| i <= k < n ==> #[trigger] self@.cards[k] == oldc[k],
                    decreases n - i,
                {
                    proof {
                        assert(self@.cards[i as int] == oldc[i as int]);
                        assert(card_wf(oldc[i as int]));
                        assert(card_is_hovered(oldc[h as int]));
                        assert(holder_exists(oldc));
                    }
                    if !matches!(self.cards[i].state, CardState::Dragging(_)) {
                        let hit = card_hit_exec(&self.cards[i], pointer);
                        let new_state = if i == h && hit {
                            CardState::Hovered
                        } else {
                            CardState::Idle
                        };
                        proof {
                            if i as int != h as int {
                                assert(!is_first_hovered(oldc, i as int));
                            }
                            assert(new_state == hover_step(oldc, i as int, pointer));
                        }
                        let ghost pre = self@.cards;
                        self.cards[i].state = new_state;
                        proof {
                            assert(self@.cards[i as int] == hover_pass(oldc, pointer)[i as int]);
                            assert forall|k: int| 0 <= k < n && k != i as int implies #[trigger] self@.cards[k] == pre[k] by {}
                        }
                    } else {
                        proof {
                            assert(self@.cards[i as int] == hover_pass(oldc, pointer)[i as int]);
                        }
                    }
                    i += 1;
                }
            },
            None => {
                let mut claimed = false;
                let mut i: usize = 0;
                while i < n
                    invariant
                        hand_wf(old(self)@),
                        n == oldc.len(),
                        oldc == old(self)@.cards,
                        self@.cards.len() == n,
                        self@.next_id == old(self)@.next_id,
                        0 <= i <= n,
                        !holder_exists(oldc),
                        claimed == exists|k: int| 0 <= k < i && free_hit(oldc, k, pointer),
                        forall|k: int|
                            0 <= k < i ==> #[trigger] self@.cards[k] == hover_pass(
                                oldc,
                                pointer,
                            )[k],
                        forall|k: int| i <= k < n ==> #[trigger] self@.cards[k] == oldc[k],
                    decreases n - i,
                {
                    let ghost claimed0 = claimed;
                    proof {
                        assert(self@.cards[i as int] == oldc[i as int]);
                        assert(card_wf(oldc[i as int]));
                    }
                    if !matches!(self.cards[i].state, CardState::Dragging(_)) {
                        let hit = card_hit_exec(&self.cards[i], pointer);
                        let new_state = if hit && !claimed {
                            claimed = true;
                            CardState::Hovered
                        } else {
                            CardState::Idle
                        };
                        proof {
                            assert(hit == card_hit(oldc[i as int], pointer));
                            if hit && !claimed0 {
                                assert(is_first_free_hit(oldc, i as int, pointer));
                            } else {
                                assert(!is_first_free_hit(oldc, i as int, pointer));
                            }
                            assert(new_state == hover_step(oldc, i as int, pointer));
                        }
                        let ghost pre = self@.cards;
                        self.cards[i].state = new_state;
                        proof {
                            assert(self@.cards[i as int] == hover_pass(oldc, pointer)[i as int]);
                            assert forall|k: int| 0 <= k < n && k != i as int implies #[trigger] self@.cards[k] == pre[k] by {}
                        }
                    } else {
                        proof {
                            assert(!free_hit(oldc, i as int, pointer));
                            assert(self@.cards[i as int] == hover_pass(oldc, pointer)[i as int]);
                        }
                    }
                    i += 1;
                }
            },
        }
        proof {
            assert(final(self)@.cards =~= hover_pass(oldc, pointer));
            assert forall|k: int| 0 <= k < n implies card_wf(#[trigger] final(self)@.cards[k]) by {
                assert(card_wf(oldc[k]));
            }
        }
    }
}

/// Law: hover is exclusive. After an arbitration pass at most one card is
/// hovered, whatever the pointer and the prior states were.
pub proof fn lemma_hover_exclusive(cards: Seq<CardView>, wp: Option<Vec2>)
    ensures
        forall|i: int, j: int|
            #![trigger hover_pass(cards, wp)[i], hover_pass(cards, wp)[j]]
            0 <= i < cards.len() && 0 <= j < cards.len() && card_is_hovered(
                hover_pass(cards, wp)[i],
            ) && card_is_hovered(hover_pass(cards, wp)[j]) ==> i == j,
{
    let pass = hover_pass(cards, wp);
    assert forall|i: int, j: int|
        0 <= i < cards.len() && 0 <= j < cards.len() && card_is_hovered(#[trigger] pass[i])
            && card_is_hovered(#[trigger] pass[j]) && i < j implies false by {
        assert(!card_is_dragging(cards[i]) && !card_is_dragging(cards[j]));
        if holder_exists(cards) {
            assert(is_first_hovered(cards, i) && is_first_hovered(cards, j));
            assert(card_is_hovered(cards[i]));
        } else {
            assert(is_first_free_hit(cards, i, wp) && is_first_free_hit(cards, j, wp));
            assert(free_hit(cards, i, wp));
        }
    }
}

/// Law: hover is sticky. While the holder's box still contains the pointer,
/// the holder stays the one hovered card, whatever other boxes overlap it.
pub proof fn lemma_hover_sticky(cards: Seq<CardView>, wp: Option<Vec2>, h: int)
    requires
        is_first_hovered(cards, h),
        card_hit(cards[h], wp),
    ensures
        card_is_hovered(hover_pass(cards, wp)[h]),
        forall|j: int|
            0 <= j < cards.len() && j != h ==> !card_is_hovered(
                #[trigger] hover_pass(cards, wp)[j],
            ),
{
    assert(holder_exists(cards));
    assert forall|j: int| 0 <= j < cards.len() && j != h implies !card_is_hovered(
        #[trigger] hover_pass(cards, wp)[j],
    ) by {
        if !card_is_dragging(cards[j]) {
            if is_first_hovered(cards, j) {
                assert(card_is_hovered(cards[h]) && card_is_hovered(cards[j]));
                if h < j {
                } else {
                }
            }
        }
    }
}

/// Law: with no prior holder and at least one candidate under the pointer,
/// the arbiter acquires the hover for exactly one card: the first candidate
/// in hand order.
pub proof fn lemma_hover_acquires(cards: Seq<CardView>, wp: Option<Vec2>, i: int)
    requires
        !holder_exists(cards),
        free_hit(cards, i, wp),
    ensures
        exists|h: int|
            #[trigger] is_first_free_hit(cards, h, wp) && card_is_hovered(
                hover_pass(cards, wp)[h],
            ),
    decreases i,
{
    if exists|k: int| 0 <= k < i && #[trigger] free_hit(cards, k, wp) {
        let k = choose|k: int| 0 <= k < i && #[trigger] free_hit(cards, k, wp);
        lemma_hover_acquires(cards, wp, k);
    } else {
        assert(is_first_free_hit(cards, i, wp));
        assert(card_is_hovered(hover_pass(cards, wp)[i]));
    }
}

/// Law: with the pointer absent the arbiter marks every non-dragging card
/// idle and leaves dragging cards alone.
pub proof fn lemma_no_pointer_all_idle(cards: Seq<CardView>)
    ensures
        forall|j: int|
            0 <= j < cards.len() ==> #[trigger] hover_pass(cards, None)[j].state == (
            if card_is_dragging(cards[j]) {
                cards[j].state
            } else {
                CardState::Idle
            }),
{
    assert forall|j: int| 0 <= j < cards.len() implies #[trigger] hover_pass(cards, None)[j].state
        == (if card_is_dragging(cards[j]) {
        cards[j].state
    } else {
        CardState::Idle
    }) by {
        assert(!card_hit(cards[j], None));
    }
}

} // verus!
