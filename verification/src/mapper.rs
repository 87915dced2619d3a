//! The coordinate mapper: converts a cursor position in screen space into a
//! world-space point through a 2D orthographic camera.
//!
//! The cursor is first normalized across the viewport to the [-1, 1] range,
//! then scaled to the camera's world extents and offset by its center — the
//! un-projection of an orthographic view, carried out exactly in fixed-point
//! integers with the one division rounded toward zero. When the windowing
//! collaborator reports no cursor, no world pointer exists for that tick and
//! every dependent stage treats it as "nothing is hovered or hit".

use vstd::prelude::*;

use crate::cards::{abs_le, COORD_LIMIT};
use crate::drag::pointer_wf;
use crate::geometry::Vec2;

verus! {

/// A 2D orthographic camera: the world point at the center of the view, and
/// half the world extent the viewport covers on each axis.
#[derive(Clone, Copy, PartialEq, Eq, Structural, Debug)]
pub struct Camera {
    pub center: Vec2,
    pub half_extents: Vec2,
}

/// A camera the mapper accepts: extents non-negative and the whole visible
/// rectangle within the coordinate range.
pub open spec fn camera_wf(cam: Camera) -> bool {
    &&& cam.half_extents.x >= 0
    &&& cam.half_extents.y >= 0
    &&& vstd::math::abs(cam.center.x as int) + cam.half_extents.x <= COORD_LIMIT as int
    &&& vstd::math::abs(cam.center.y as int) + cam.half_extents.y <= COORD_LIMIT as int
}

/// A viewport the mapper accepts, with a cursor inside it.
pub open spec fn cursor_in_viewport(cursor: Vec2, viewport: Vec2) -> bool {
    &&& 1 <= viewport.x <= COORD_LIMIT
    &&& 1 <= viewport.y <= COORD_LIMIT
    &&& 0 <= cursor.x <= viewport.x
    &&& 0 <= cursor.y <= viewport.y
}

/// Division with the quotient rounded toward zero, for positive divisors.
pub open spec fn div_toward_zero(a: int, b: int) -> int {
    if a >= 0 {
        a / b
    } else {
        -((-a) / b)
    }
}

/// One axis of the un-projection: the cursor position `s` normalized across
/// the viewport size `vp` to [-1, 1], scaled by the camera half extent `h`
/// and offset by the camera center `c`.
pub open spec fn world_coord(s: int, vp: int, c: int, h: int) -> int {
    c + div_toward_zero((2 * s - vp) * h, vp)
}

/// The world point under `cursor` in a viewport of size `viewport`, seen
/// through `cam`.
pub open spec fn world_point(cursor: Vec2, viewport: Vec2, cam: Camera) -> Vec2 {
    Vec2 {
        x: world_coord(
            cursor.x as int,
            viewport.x as int,
            cam.center.x as int,
            cam.half_extents.x as int,
        ) as i64,
        y: world_coord(
            cursor.y as int,
            viewport.y as int,
            cam.center.y as int,
            cam.half_extents.y as int,
        ) as i64,
    }
}

/// One exact un-projection axis; the result stays within the camera's view,
/// so within the coordinate range.
fn map_axis(s: i64, vp: i64, c: i64, h: i64) -> (r: i64)
    requires
        1 <= vp <= COORD_LIMIT,
        0 <= s <= vp,
        0 <= h,
        vstd::math::abs(c as int) + h <= COORD_LIMIT as int,
    ensures
        r as int == world_coord(s as int, vp as int, c as int, h as int),
        abs_le(r as int, COORD_LIMIT as int),
{
    let num = 2 * s - vp;
    let q: i64 = if num >= 0 {
        proof {
            vstd::arithmetic::mul::lemma_mul_inequality(num as int, vp as int, h as int);
            vstd::arithmetic::mul::lemma_mul_nonnegative(num as int, h as int);
            vstd::arithmetic::div_mod::lemma_div_is_ordered(
                (num as int) * (h as int),
                (vp as int) * (h as int),
                vp as int,
            );
            vstd::arithmetic::div_mod::lemma_div_multiples_vanish(h as int, vp as int);
            assert(((vp as int) * (h as int)) / (vp as int) == h as int);
            vstd::arithmetic::mul::lemma_mul_inequality(
                vp as int,
                COORD_LIMIT as int,
                h as int,
            );
            vstd::arithmetic::mul::lemma_mul_inequality(
                h as int,
                COORD_LIMIT as int,
                COORD_LIMIT as int,
            );
        }
        (num * h) / vp
    } else {
        let neg = -num;
        proof {
            vstd::arithmetic::mul::lemma_mul_inequality(neg as int, vp as int, h as int);
            vstd::arithmetic::mul::lemma_mul_nonnegative(neg as int, h as int);
            vstd::arithmetic::div_mod::lemma_div_is_ordered(
                (neg as int) * (h as int),
                (vp as int) * (h as int),
                vp as int,
            );
            vstd::arithmetic::div_mod::lemma_div_multiples_vanish(h as int, vp as int);
            assert(((vp as int) * (h as int)) / (vp as int) == h as int);
            vstd::arithmetic::mul::lemma_mul_inequality(
                vp as int,
                COORD_LIMIT as int,
                h as int,
            );
            vstd::arithmetic::mul::lemma_mul_inequality(
                h as int,
                COORD_LIMIT as int,
                COORD_LIMIT as int,
            );
        }
        -((neg * h) / vp)
    };
    proof {
        let a = (2 * (s as int) - (vp as int)) * (h as int);
        vstd::arithmetic::mul::lemma_mul_unary_negation(num as int, h as int);
        assert(q as int == div_toward_zero(a, vp as int));
    }
    c + q
}

/// Map a cursor position in screen space to a world point: normalize across
/// the viewport, scale to the camera's extents, offset by its center. The
/// result is exact and always a well-formed pointer position.
pub fn screen_to_world(cursor: Vec2, viewport: Vec2, cam: Camera) -> (w: Vec2)
    requires
        cursor_in_viewport(cursor, viewport),
        camera_wf(cam),
    ensures
        w == world_point(cursor, viewport, cam),
        pointer_wf(Some(w)),
{
    let x = map_axis(cursor.x, viewport.x, cam.center.x, cam.half_extents.x);
    let y = map_axis(cursor.y, viewport.y, cam.center.y, cam.half_extents.y);
    Vec2 { x, y }
}

} // verus!
