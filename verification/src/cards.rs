//! The card registry: an ordered hand of cards, each with an identity, a
//! formula, geometry and an interaction state.
//!
//! The hand owns the order of its cards; the order decides fan position and
//! is also the iteration order every arbitration policy is stated over.
//! Identities are unique and never reused.

use vstd::prelude::*;
use vstd::string::StringExecFns;

use rand::Rng;

use crate::geometry::{Vec2, Vec3};

verus! {

/// Card width in tenths of a world unit.
pub const CARD_WIDTH: i64 = 1000;

/// Card height in tenths of a world unit.
pub const CARD_HEIGHT: i64 = 2000;

/// Depth (z) of a card that is not being dragged.
pub const IDLE_DEPTH: i64 = 20;

/// Depth (z) of a dragged card: above every idle card.
pub const DRAG_DEPTH: i64 = 100;

/// Per-axis scale of an idle card, in tenths.
pub const SCALE_IDLE: i64 = 10;

/// Per-axis scale of a hovered card, in tenths: the hover "pop".
pub const SCALE_HOVER: i64 = 11;

/// Largest hand the registry accepts; keeps every layout position
/// representable in an `i64`.
pub const HAND_LIMIT: usize = 1000000;

/// Largest magnitude of a pointer coordinate and of a non-dragged card
/// coordinate; keeps all coordinate arithmetic free of overflow.
pub const COORD_LIMIT: i64 = 1000000000;

/// Interaction state of one card. A dragging card remembers the offset from
/// the pointer to its center at the moment the drag began.
#[derive(Clone, Copy, PartialEq, Eq, Structural, Debug)]
pub enum CardState {
    Idle,
    Hovered,
    Dragging(Vec2),
}

/// One card: identity, formula source, geometry and interaction state.
pub struct Card {
    pub id: u64,
    pub code: String,
    pub pos: Vec3,
    pub size: Vec2,
    pub scale: Vec2,
    pub state: CardState,
}

/// Mathematical model of a card; the formula is a sequence of characters.
pub ghost struct CardView {
    pub id: u64,
    pub code: Seq<char>,
    pub pos: Vec3,
    pub size: Vec2,
    pub scale: Vec2,
    pub state: CardState,
}

impl View for Card {
    type V = CardView;

    open spec fn view(&self) -> CardView {
        CardView {
            id: self.id,
            code: self.code@,
            pos: self.pos,
            size: self.size,
            scale: self.scale,
            state: self.state,
        }
    }
}

pub open spec fn card_is_dragging(c: CardView) -> bool {
    c.state is Dragging
}

pub open spec fn card_is_hovered(c: CardView) -> bool {
    c.state is Hovered
}

/// `-bound <= v <= bound`.
pub open spec fn abs_le(v: int, bound: int) -> bool {
    -bound <= v && v <= bound
}

/// Coordinate ranges that keep the interaction arithmetic exact: an idle or
/// hovered card sits where the layout put it (or at the origin where it was
/// dealt); a dragged card sits at pointer plus offset.
pub open spec fn card_wf(c: CardView) -> bool {
    &&& c.size.x >= 0
    &&& c.size.y >= 0
    &&& abs_le(c.pos.z as int, COORD_LIMIT as int)
    &&& match c.state {
        CardState::Dragging(off) => {
            &&& abs_le(off.x as int, 2 * COORD_LIMIT as int)
            &&& abs_le(off.y as int, 2 * COORD_LIMIT as int)
            &&& abs_le(c.pos.x as int, 3 * COORD_LIMIT as int)
            &&& abs_le(c.pos.y as int, 3 * COORD_LIMIT as int)
        },
        _ => {
            &&& abs_le(c.pos.x as int, COORD_LIMIT as int)
            &&& abs_le(c.pos.y as int, COORD_LIMIT as int)
        },
    }
}

/// The card a deal appends: fresh identity, the given formula, origin
/// position at idle depth, standard size and scale, idle state.
pub open spec fn fresh_card(id: u64, code: Seq<char>) -> CardView {
    CardView {
        id,
        code,
        pos: (Vec3 { x: 0, y: 0, z: IDLE_DEPTH }),
        size: (Vec2 { x: CARD_WIDTH, y: CARD_HEIGHT }),
        scale: (Vec2 { x: SCALE_IDLE, y: SCALE_IDLE }),
        state: CardState::Idle,
    }
}

/// Index of the first card with identity `id`, if any.
pub open spec fn find_id(cards: Seq<CardView>, id: u64) -> Option<int>
    decreases cards.len(),
{
    if cards.len() == 0 {
        None
    } else if cards[0].id == id {
        Some(0int)
    } else {
        match find_id(cards.drop_first(), id) {
            Some(i) => Some(i + 1),
            None => None,
        }
    }
}

/// What `find_id` returns: the first index holding `id`, or `None` when no
/// card holds it.
pub proof fn lemma_find_id(cards: Seq<CardView>, id: u64)
    ensures
        match find_id(cards, id) {
            Some(i) => {
                &&& 0 <= i < cards.len()
                &&& cards[i].id == id
                &&& forall|k: int| 0 <= k < i ==> #[trigger] cards[k].id != id
            },
            None => forall|k: int| 0 <= k < cards.len() ==> #[trigger] cards[k].id != id,
        },
    decreases cards.len(),
{
    if cards.len() > 0 && cards[0].id != id {
        lemma_find_id(cards.drop_first(), id);
        match find_id(cards.drop_first(), id) {
            Some(i) => {
                assert(cards[i + 1] == cards.drop_first()[i]);
                assert forall|k: int| 0 <= k < i + 1 implies #[trigger] cards[k].id != id by {
                    if k > 0 {
                        assert(cards.drop_first()[k - 1].id != id);
                    }
                }
            },
            None => {
                assert forall|k: int| 0 <= k < cards.len() implies #[trigger] cards[k].id
                    != id by {
                    if k > 0 {
                        assert(cards.drop_first()[k - 1].id != id);
                    }
                }
            },
        }
    }
}

/// If `cards[j]` holds `id` and no earlier card does, `find_id` returns `j`.
pub proof fn lemma_find_id_first(cards: Seq<CardView>, id: u64, j: int)
    requires
        0 <= j < cards.len(),
        cards[j].id == id,
        forall|k: int| 0 <= k < j ==> #[trigger] cards[k].id != id,
    ensures
        find_id(cards, id) == Some(j),
    decreases cards.len(),
{
    if j > 0 {
        assert(cards[0].id != id);
        assert(cards.drop_first()[j - 1].id == id);
        assert forall|k: int| 0 <= k < j - 1 implies #[trigger] cards.drop_first()[k].id != id by {
            assert(cards[k + 1].id != id);
        }
        lemma_find_id_first(cards.drop_first(), id, j - 1);
    }
}

/// The ordered hand. Invariants: at most `HAND_LIMIT` cards, identities
/// unique and below `next_id`, every card's coordinates in range.
pub struct Hand {
    pub cards: Vec<Card>,
    pub next_id: u64,
}

/// Mathematical model of a hand.
pub ghost struct HandView {
    pub cards: Seq<CardView>,
    pub next_id: u64,
}

impl View for Hand {
    type V = HandView;

    open spec fn view(&self) -> HandView {
        HandView { cards: self.cards@.map_values(|c: Card| c@), next_id: self.next_id }
    }
}

/// The fixed deck a spawned card's formula is drawn from.
pub open spec fn deck_code(k: int) -> Seq<char> {
    if k == 0 {
        "x+1"@
    } else if k == 1 {
        "x-1"@
    } else if k == 2 {
        "Math.sqrt(x+10)"@
    } else if k == 3 {
        "Math.abs(x)"@
    } else {
        "Math.log(x)"@
    }
}

/// Relies on rand::thread_rng and rand::Rng::gen_range: an index drawn
/// uniformly below `n`; `gen_range` panics only on an empty range, which the
/// precondition rules out.
#[verifier::external_body]
fn pick_index(n: usize) -> (r: usize)
    requires
        n > 0,
    ensures
        r < n,
{
    rand::thread_rng().gen_range(0..n)
}

/// Well-formedness of a hand model.
pub open spec fn hand_wf(h: HandView) -> bool {
    &&& h.cards.len() <= HAND_LIMIT
    &&& forall|i: int| 0 <= i < h.cards.len() ==> card_wf(#[trigger] h.cards[i])
    &&& forall|i: int| 0 <= i < h.cards.len() ==> (#[trigger] h.cards[i].id) < h.next_id
    &&& forall|i: int, j: int|
        #![trigger h.cards[i].id, h.cards[j].id]
        0 <= i < j < h.cards.len() ==> h.cards[i].id != h.cards[j].id
}

impl Hand {
    /// An empty hand.
    pub fn new() -> (h: Hand)
        ensures
            h@.cards.len() == 0,
            h@.next_id == 0,
            hand_wf(h@),
    {
        Hand { cards: Vec::new(), next_id: 0 }
    }

    pub fn len(&self) -> (n: usize)
        ensures
            n == self@.cards.len(),
    {
        self.cards.len()
    }

    pub fn get(&self, i: usize) -> (c: &Card)
        requires
            i < self@.cards.len(),
        ensures
            c@ == self@.cards[i as int],
    {
        &self.cards[i]
    }

    /// Append a card with the given formula under a fresh identity; the rest
    /// of the hand is untouched. Returns the new identity.
    pub fn deal(&mut self, code: &str) -> (id: u64)
        requires
            hand_wf(old(self)@),
            old(self)@.cards.len() < HAND_LIMIT,
            old(self)@.next_id < u64::MAX,
        ensures
            hand_wf(final(self)@),
            id == old(self)@.next_id,
            final(self)@.next_id == old(self)@.next_id + 1,
            final(self)@.cards =~= old(self)@.cards.push(fresh_card(id, code@)),
    {
        let id = self.next_id;
        let card = Card {
            id,
            code: String::from_str(code),
            pos: Vec3::new(0, 0, IDLE_DEPTH),
            size: Vec2::new(CARD_WIDTH, CARD_HEIGHT),
            scale: Vec2::new(SCALE_IDLE, SCALE_IDLE),
            state: CardState::Idle,
        };
        self.cards.push(card);
        self.next_id = id + 1;
        proof {
            let c = fresh_card(id, code@);
            let oldc = old(self)@.cards;
            assert(self@.cards =~= oldc.push(c));
            assert forall|i: int| 0 <= i < self@.cards.len() implies card_wf(
                #[trigger] self@.cards[i],
            ) && self@.cards[i].id < self@.next_id by {
                if i < oldc.len() {
                    assert(self@.cards[i] == oldc[i]);
                } else {
                    assert(self@.cards[i] == c);
                }
            }
        }
        id
    }

    /// Deal one card whose formula is drawn at random from the fixed deck.
    pub fn spawn_card(&mut self) -> (id: u64)
        requires
            hand_wf(old(self)@),
            old(self)@.cards.len() < HAND_LIMIT,
            old(self)@.next_id < u64::MAX,
        ensures
            hand_wf(final(self)@),
            id == old(self)@.next_id,
            final(self)@.next_id == old(self)@.next_id + 1,
            exists|k: int|
                0 <= k < 5 && final(self)@.cards =~= old(self)@.cards.push(
                    fresh_card(id, #[trigger] deck_code(k)),
                ),
    {
        let idx = pick_index(5);
        let code: &str = if idx == 0 {
            "x+1"
        } else if idx == 1 {
            "x-1"
        } else if idx == 2 {
            "Math.sqrt(x+10)"
        } else if idx == 3 {
            "Math.abs(x)"
        } else {
            "Math.log(x)"
        };
        let ghost k: int = if idx == 0 {
            0int
        } else if idx == 1 {
            1int
        } else if idx == 2 {
            2int
        } else if idx == 3 {
            3int
        } else {
            4int
        };
        proof {
            assert(code@ == deck_code(k));
        }
        let id = self.deal(code);
        id
    }

    /// Index of the card with identity `id` in hand order, if it is present.
    pub fn position_index(&self, id: u64) -> (r: Option<usize>)
        ensures
            match r {
                Some(i) => find_id(self@.cards, id) == Some(i as int),
                None => find_id(self@.cards, id) is None,
            },
    {
        let ghost cards = self@.cards;
        let n = self.cards.len();
        let mut j: usize = 0;
        while j < n
            invariant
                n == cards.len(),
                cards == self@.cards,
                0 <= j <= n,
                forall|k: int| 0 <= k < j ==> #[trigger] cards[k].id != id,
            decreases n - j,
        {
            if self.cards[j].id == id {
                proof {
                    lemma_find_id_first(cards, id, j as int);
                }
                return Some(j);
            }
            j += 1;
        }
        proof {
            lemma_find_id(cards, id);
        }
        None
    }

    /// Remove the card with identity `id`, shifting the cards after it down
    /// by one. Removing an absent identity is a no-op, never a fault, and
    /// afterwards no card with that identity is iterable.
    pub fn remove(&mut self, id: u64) -> (removed: bool)
        requires
            hand_wf(old(self)@),
        ensures
            hand_wf(final(self)@),
            final(self)@.next_id == old(self)@.next_id,
            match find_id(old(self)@.cards, id) {
                Some(i) => removed && final(self)@.cards =~= old(self)@.cards.remove(i),
                None => !removed && final(self)@.cards =~= old(self)@.cards,
            },
            forall|k: int|
                0 <= k < final(self)@.cards.len() ==> (#[trigger] final(self)@.cards[k].id) != id,
    {
        proof {
            lemma_find_id(old(self)@.cards, id);
        }
        let r = self.position_index(id);
        match r {
            Some(i) => {
                self.cards.remove(i);
                proof {
                    let oldc = old(self)@.cards;
                    let ghost ii = i as int;
                    assert(final(self)@.cards =~= oldc.remove(ii));
                    assert forall|k: int|
                        0 <= k < final(self)@.cards.len() implies (#[trigger] final(self)@.cards[k].id) != id by {
                        if k < ii {
                            assert(final(self)@.cards[k] == oldc[k]);
                        } else {
                            assert(final(self)@.cards[k] == oldc[k + 1]);
                        }
                    }
                }
                true
            },
            None => false,
        }
    }
}

} // verus!
