//! The per-tick pipeline: one tick maps the cursor to a world pointer, then
//! runs hover arbitration, the press, the drag update, the release (playing
//! every dragging card), the fan layout, and the hover scale, in that fixed
//! order — later stages read what earlier stages of the same tick wrote.

use vstd::prelude::*;

use crate::cards::{hand_wf, CardView, Hand};
use crate::drag::{drag_pass, pointer_wf, press_pass};
use crate::geometry::Vec2;
use crate::hover::hover_pass;
use crate::layout::{layout_pass, scale_pass};
use crate::mapper::{camera_wf, cursor_in_viewport, screen_to_world, world_point, Camera};
use crate::play::{no_dragging, release_all, released_pass};
use crate::runtime::JsRuntime;
use crate::target::{target_wf, Target};

verus! {

/// The whole interactive state: the hand, the shared target, and the world
/// pointer derived this tick.
pub struct SimulationState {
    pub hand: Hand,
    pub target: Target,
    pub world_pointer: Option<Vec2>,
}

/// One tick's input from the windowing collaborator: the cursor in screen
/// space (absent while outside the window), the viewport size, the camera,
/// and this tick's button edge events.
pub struct TickInput {
    pub cursor: Option<Vec2>,
    pub viewport: Vec2,
    pub camera: Camera,
    pub pressed: bool,
    pub released: bool,
}

/// Input a tick accepts: a well-formed camera, and a present cursor inside
/// a well-formed viewport.
pub open spec fn input_wf(input: TickInput) -> bool {
    &&& camera_wf(input.camera)
    &&& match input.cursor {
        Some(c) => cursor_in_viewport(c, input.viewport),
        None => true,
    }
}

/// The world pointer a tick derives from its input: the mapped cursor, or
/// absent when the cursor is outside the window.
pub open spec fn tick_pointer(input: TickInput) -> Option<Vec2> {
    match input.cursor {
        Some(c) => Some(world_point(c, input.viewport, input.camera)),
        None => None,
    }
}

/// The hand after the input stages of a tick: hover arbitration, then the
/// press (on a pressed edge), then the drag update.
pub open spec fn tick_after_drag(
    cards: Seq<CardView>,
    wp: Option<Vec2>,
    pressed: bool,
) -> Seq<CardView> {
    let after_hover = hover_pass(cards, wp);
    let after_press = if pressed {
        press_pass(after_hover, wp)
    } else {
        after_hover
    };
    drag_pass(after_press, wp)
}

/// The hand a whole tick leaves behind: the input stages, then the release
/// (on a released edge), then the fan layout and the hover scale.
pub open spec fn tick_pass(
    cards: Seq<CardView>,
    wp: Option<Vec2>,
    pressed: bool,
    released: bool,
) -> Seq<CardView> {
    let after_drag = tick_after_drag(cards, wp, pressed);
    let after_release = if released {
        released_pass(after_drag)
    } else {
        after_drag
    };
    scale_pass(layout_pass(after_release))
}

impl SimulationState {
    /// A fresh state: empty hand, target at zero, no pointer.
    pub fn new() -> (s: SimulationState)
        ensures
            hand_wf(s.hand@),
            target_wf(s.target),
            s.hand@.cards.len() == 0,
            s.target.value == 0,
            s.world_pointer is None,
    {
        SimulationState { hand: Hand::new(), target: Target::new(), world_pointer: None }
    }

    /// Run one tick. The hand's new contents are an exact function of the
    /// old contents and the input; the target moves only when a released
    /// edge plays a dragging card, and its text always matches its value.
    pub fn tick(&mut self, input: &TickInput, runtime: &JsRuntime)
        requires
            hand_wf(old(self).hand@),
            target_wf(old(self).target),
            input_wf(*input),
        ensures
            hand_wf(final(self).hand@),
            target_wf(final(self).target),
            final(self).world_pointer == tick_pointer(*input),
            final(self).hand@.next_id == old(self).hand@.next_id,
            final(self).hand@.cards =~= tick_pass(
                old(self).hand@.cards,
                tick_pointer(*input),
                input.pressed,
                input.released,
            ),
            (!input.released || no_dragging(
                tick_after_drag(old(self).hand@.cards, tick_pointer(*input), input.pressed),
            )) ==> final(self).target == old(self).target,
    {
        let ghost c0 = old(self).hand@.cards;
        let wp = match input.cursor {
            Some(c) => Some(screen_to_world(c, input.viewport, input.camera)),
            None => None,
        };
        proof {
            assert(wp == tick_pointer(*input));
            assert(pointer_wf(wp));
        }
        self.world_pointer = wp;

        self.hand.update_hover(wp);
        proof {
            assert(self.hand@.cards == hover_pass(c0, wp));
        }

        if input.pressed {
            self.hand.press(wp);
        }

        self.hand.drag_update(wp);
        proof {
            assert(self.hand@.cards == tick_after_drag(c0, wp, input.pressed));
        }

        if input.released {
            release_all(&mut self.hand, &mut self.target, runtime);
        }
        let ghost after_release = self.hand@.cards;

        self.hand.apply_layout();
        self.hand.apply_hover_scale();
        proof {
            assert(self.hand@.cards == scale_pass(layout_pass(after_release)));
        }
    }
}

} // verus!
