//! The viewport model: a world-space center and a zoom factor, with pan and
//! cursor-anchored zoom.
//!
//! All scalars are fixed-point ticks (see [`crate::fixed`]). The zoom factor
//! is clamped to `[ZOOM_MIN, ZOOM_MAX]` on every write. Zooming is anchored
//! at the cursor: the world point under the pointer before the operation is
//! exactly the world point under the pointer after it
//! ([`lemma_cursor_anchor`]).

use vstd::prelude::*;
use vstd::arithmetic::div_mod::{
    lemma_div_is_ordered, lemma_div_multiples_vanish, lemma_div_pos_is_pos,
};
use vstd::arithmetic::mul::{
    lemma_mul_nonnegative, lemma_mul_unary_negation, lemma_mul_upper_bound,
};
use crate::fixed::{
    fx_mul, lemma_fx_mul_bound, lemma_fx_mul_unit, lemma_fx_mul_whole_units, mul_fx, tdiv,
    COORD_LIMIT, SCALE,
};

verus! {

/// Smallest zoom factor the viewer supports (one millionth of a unit).
pub const ZOOM_MIN: i64 = 1;

/// Largest zoom factor the viewer supports (five units).
pub const ZOOM_MAX: i64 = 5_000_000;

/// The zoom value actually stored for a requested value `z`.
pub open spec fn clamp_zoom(z: int) -> int {
    if z < ZOOM_MIN as int {
        ZOOM_MIN as int
    } else if z > ZOOM_MAX as int {
        ZOOM_MAX as int
    } else {
        z
    }
}

/// Aspect-corrected cursor x-offset: on a wide surface the x-axis is
/// stretched by `w / h`, on a tall one it is left alone.
pub open spec fn aspect_x(mx: int, w: int, h: int) -> int {
    if w >= h {
        tdiv(mx * w, h)
    } else {
        mx
    }
}

/// Aspect-corrected cursor y-offset: on a tall surface the y-axis is
/// stretched by `h / w`, on a wide one it is left alone.
pub open spec fn aspect_y(my: int, w: int, h: int) -> int {
    if w >= h {
        my
    } else {
        tdiv(my * h, w)
    }
}

/// World x-coordinate under a cursor at normalized x-offset `mx`, for a
/// viewport centered at `center_x` with the given zoom and surface size.
pub open spec fn world_x(center_x: int, zoom: int, mx: int, w: int, h: int) -> int {
    fx_mul(aspect_x(mx, w, h), zoom) + center_x
}

/// World y-coordinate under a cursor at normalized y-offset `my`.
pub open spec fn world_y(center_y: int, zoom: int, my: int, w: int, h: int) -> int {
    fx_mul(aspect_y(my, w, h), zoom) + center_y
}

/// The viewport: world-space center and zoom factor, in fixed-point ticks.
#[derive(Clone, Copy, PartialEq, Eq, Structural, Debug)]
pub struct ViewportModel {
    pub center_x: i64,
    pub center_y: i64,
    pub zoom: i64,
}

impl ViewportModel {
    /// Validity: the zoom is clamped and the center is a bounded coordinate.
    pub open spec fn wf(self) -> bool {
        &&& ZOOM_MIN <= self.zoom <= ZOOM_MAX
        &&& -COORD_LIMIT <= self.center_x <= COORD_LIMIT
        &&& -COORD_LIMIT <= self.center_y <= COORD_LIMIT
    }

    /// Center x after panning by `dx`: the screen-space delta scaled by the
    /// current zoom.
    pub open spec fn panned_x(self, dx: int) -> int {
        self.center_x + fx_mul(dx, self.zoom as int)
    }

    /// Center y after panning by `dy`.
    pub open spec fn panned_y(self, dy: int) -> int {
        self.center_y + fx_mul(dy, self.zoom as int)
    }

    /// Zoom after a relative zoom change of `delta`, clamped.
    pub open spec fn zoomed(self, delta: int) -> int {
        clamp_zoom(self.zoom + delta)
    }

    /// Center x after a zoom anchored at cursor x-offset `mx`: the world
    /// point under the cursor is recomputed at the previous zoom and the
    /// center is moved so the same point sits under the cursor at the new
    /// zoom.
    pub open spec fn anchored_center_x(self, delta: int, mx: int, w: int, h: int) -> int {
        world_x(self.center_x as int, self.zoom as int, mx, w, h) - fx_mul(
            aspect_x(mx, w, h),
            self.zoomed(delta),
        )
    }

    /// Center y after a zoom anchored at cursor y-offset `my`.
    pub open spec fn anchored_center_y(self, delta: int, my: int, w: int, h: int) -> int {
        world_y(self.center_y as int, self.zoom as int, my, w, h) - fx_mul(
            aspect_y(my, w, h),
            self.zoomed(delta),
        )
    }

    /// The conventional initial framing of the full Mandelbrot set: center
    /// `(-0.5, 0)` and zoom `1.0`.
    pub fn new() -> (v: ViewportModel)
        ensures
            v.wf(),
            v.center_x == -500_000int,
            v.center_y == 0,
            v.zoom == SCALE,
    {
        ViewportModel { center_x: -500_000, center_y: 0, zoom: SCALE }
    }

    /// Pan by normalized screen-space deltas: the center moves by the deltas
    /// scaled by the current zoom. The zoom is unchanged.
    pub fn pan(&mut self, dx: i64, dy: i64)
        requires
            old(self).wf(),
            -COORD_LIMIT <= dx <= COORD_LIMIT,
            -COORD_LIMIT <= dy <= COORD_LIMIT,
            -COORD_LIMIT <= old(self).panned_x(dx as int) <= COORD_LIMIT,
            -COORD_LIMIT <= old(self).panned_y(dy as int) <= COORD_LIMIT,
        ensures
            final(self).wf(),
            final(self).center_x == old(self).panned_x(dx as int),
            final(self).center_y == old(self).panned_y(dy as int),
            final(self).zoom == old(self).zoom,
    {
        let sx: i64 = mul_fx(dx, self.zoom);
        let sy: i64 = mul_fx(dy, self.zoom);
        self.center_x = self.center_x + sx;
        self.center_y = self.center_y + sy;
    }

    /// Relative zoom change anchored at the cursor. The zoom moves by
    /// `delta` and is clamped; the center is recomputed so that the world
    /// point under the cursor stays under the cursor, with the clamped zoom
    /// used for the re-centering even when the requested zoom was out of
    /// range.
    pub fn zoom_at(&mut self, delta: i64, mx: i64, my: i64, w: u32, h: u32)
        requires
            old(self).wf(),
            1 <= w,
            1 <= h,
            -COORD_LIMIT <= delta <= COORD_LIMIT,
            -COORD_LIMIT <= mx <= COORD_LIMIT,
            -COORD_LIMIT <= my <= COORD_LIMIT,
            -COORD_LIMIT <= aspect_x(mx as int, w as int, h as int) <= COORD_LIMIT,
            -COORD_LIMIT <= aspect_y(my as int, w as int, h as int) <= COORD_LIMIT,
            -COORD_LIMIT <= old(self).anchored_center_x(delta as int, mx as int, w as int, h as int) <= COORD_LIMIT,
            -COORD_LIMIT <= old(self).anchored_center_y(delta as int, my as int, w as int, h as int) <= COORD_LIMIT,
        ensures
            final(self).wf(),
            final(self).zoom == old(self).zoomed(delta as int),
            final(self).center_x == old(self).anchored_center_x(delta as int, mx as int, w as int, h as int),
            final(self).center_y == old(self).anchored_center_y(delta as int, my as int, w as int, h as int),
    {
        let prev_zoom: i64 = self.zoom;
        let z: i64 = self.zoom + delta;
        self.zoom = if z < ZOOM_MIN {
            ZOOM_MIN
        } else if z > ZOOM_MAX {
            ZOOM_MAX
        } else {
            z
        };
        let ax: i64 = aspect_corrected_x(mx, w, h);
        let ay: i64 = aspect_corrected_y(my, w, h);
        proof {
            lemma_scaled_shift_bound(ax as int, prev_zoom as int);
            lemma_scaled_shift_bound(ay as int, prev_zoom as int);
            lemma_scaled_shift_bound(ax as int, self.zoom as int);
            lemma_scaled_shift_bound(ay as int, self.zoom as int);
        }
        let sx_prev: i64 = mul_fx(ax, prev_zoom);
        let sy_prev: i64 = mul_fx(ay, prev_zoom);
        let sx_new: i64 = mul_fx(ax, self.zoom);
        let sy_new: i64 = mul_fx(ay, self.zoom);
        let p_world_x: i64 = sx_prev + self.center_x;
        let p_world_y: i64 = sy_prev + self.center_y;
        self.center_x = p_world_x - sx_new;
        self.center_y = p_world_y - sy_new;
    }

    /// Absolute zoom write, with the clamp invariant applied.
    pub fn set_zoom(&mut self, value: i64)
        requires
            old(self).wf(),
        ensures
            final(self).wf(),
            final(self).zoom == clamp_zoom(value as int),
            final(self).center_x == old(self).center_x,
            final(self).center_y == old(self).center_y,
    {
        self.zoom = if value < ZOOM_MIN {
            ZOOM_MIN
        } else if value > ZOOM_MAX {
            ZOOM_MAX
        } else {
            value
        };
    }

    /// Current zoom factor.
    pub fn get_zoom(&self) -> (r: i64)
        ensures
            r == self.zoom,
    {
        self.zoom
    }

    /// Current center x-coordinate.
    pub fn get_center_x(&self) -> (r: i64)
        ensures
            r == self.center_x,
    {
        self.center_x
    }

    /// Current center y-coordinate.
    pub fn get_center_y(&self) -> (r: i64)
        ensures
            r == self.center_y,
    {
        self.center_y
    }

    /// Absolute center write.
    pub fn set_center(&mut self, x: i64, y: i64)
        requires
            old(self).wf(),
            -COORD_LIMIT <= x <= COORD_LIMIT,
            -COORD_LIMIT <= y <= COORD_LIMIT,
        ensures
            final(self).wf(),
            final(self).center_x == x,
            final(self).center_y == y,
            final(self).zoom == old(self).zoom,
    {
        self.center_x = x;
        self.center_y = y;
    }
}

/// A cursor offset scaled by a clamped zoom stays well inside the machine
/// range.
proof fn lemma_scaled_shift_bound(a: int, z: int)
    requires
        -COORD_LIMIT <= a <= COORD_LIMIT,
        0 <= z <= ZOOM_MAX,
    ensures
        -5_000_000_000_000int <= fx_mul(a, z) <= 5_000_000_000_000int,
{
    lemma_fx_mul_bound(a, z, COORD_LIMIT as int, ZOOM_MAX as int);
    lemma_div_multiples_vanish(5_000_000_000_000int, 1_000_000int);
    assert(tdiv(COORD_LIMIT as int * ZOOM_MAX as int, SCALE as int) == 5_000_000_000_000int);
}

/// Scale a magnitude-bounded offset by `num / den`, rounding toward zero.
fn stretch(v: i64, num: u32, den: u32) -> (r: i64)
    requires
        1 <= den,
        -COORD_LIMIT <= v <= COORD_LIMIT,
        -COORD_LIMIT <= tdiv(v as int * num as int, den as int) <= COORD_LIMIT,
    ensures
        r == tdiv(v as int * num as int, den as int),
{
    let neg: bool = v < 0;
    let m: u64 = if neg { (-v) as u64 } else { v as u64 };
    proof {
        lemma_mul_upper_bound(m as int, COORD_LIMIT as int, num as int, u32::MAX as int);
        lemma_mul_nonnegative(m as int, num as int);
    }
    let p: u128 = (m as u128) * (num as u128);
    let q: u128 = p / (den as u128);
    proof {
        if v >= 0 {
            assert(v as int * num as int == m as int * num as int);
        } else {
            lemma_mul_unary_negation(v as int, num as int);
            assert(v as int * num as int == -(m as int * num as int));
            if p == 0 {
                assert(tdiv(v as int * num as int, den as int) == 0int / den as int);
                lemma_div_multiples_vanish(0, den as int);
            }
        }
    }
    if neg {
        -(q as i64)
    } else {
        q as i64
    }
}

/// Aspect-corrected cursor x-offset (see [`aspect_x`]).
pub fn aspect_corrected_x(mx: i64, w: u32, h: u32) -> (r: i64)
    requires
        1 <= w,
        1 <= h,
        -COORD_LIMIT <= mx <= COORD_LIMIT,
        -COORD_LIMIT <= aspect_x(mx as int, w as int, h as int) <= COORD_LIMIT,
    ensures
        r == aspect_x(mx as int, w as int, h as int),
{
    if w >= h {
        stretch(mx, w, h)
    } else {
        mx
    }
}

/// Aspect-corrected cursor y-offset (see [`aspect_y`]).
pub fn aspect_corrected_y(my: i64, w: u32, h: u32) -> (r: i64)
    requires
        1 <= w,
        1 <= h,
        -COORD_LIMIT <= my <= COORD_LIMIT,
        -COORD_LIMIT <= aspect_y(my as int, w as int, h as int) <= COORD_LIMIT,
    ensures
        r == aspect_y(my as int, w as int, h as int),
{
    if w >= h {
        my
    } else {
        stretch(my, h, w)
    }
}

/// Zoom clamp invariant: every zoom value the viewport stores lies within
/// `[ZOOM_MIN, ZOOM_MAX]`.
pub proof fn lemma_zoom_clamp(z: int)
    ensures
        ZOOM_MIN as int <= clamp_zoom(z) <= ZOOM_MAX as int,
{
}

/// Cursor-anchored zoom: for every viewport, zoom delta, cursor position and
/// surface size, the world point under the cursor after `zoom_at` is exactly
/// the world point that was under it before.
pub proof fn lemma_cursor_anchor(vp: ViewportModel, delta: int, mx: int, my: int, w: int, h: int)
    ensures
        world_x(vp.anchored_center_x(delta, mx, w, h), vp.zoomed(delta), mx, w, h) == world_x(
            vp.center_x as int,
            vp.zoom as int,
            mx,
            w,
            h,
        ),
        world_y(vp.anchored_center_y(delta, my, w, h), vp.zoomed(delta), my, w, h) == world_y(
            vp.center_y as int,
            vp.zoom as int,
            my,
            w,
            h,
        ),
{
}

/// Pan scaling law: one pan gesture at zoom `2.0` moves the center exactly
/// twice as far as the same gesture moves it at zoom `1.0`.
pub proof fn lemma_pan_scaling(vp1: ViewportModel, vp2: ViewportModel, dx: int, dy: int)
    requires
        vp1.zoom == SCALE,
        vp2.zoom == 2 * (SCALE as int),
    ensures
        vp2.panned_x(dx) - vp2.center_x == 2 * (vp1.panned_x(dx) - vp1.center_x),
        vp2.panned_y(dy) - vp2.center_y == 2 * (vp1.panned_y(dy) - vp1.center_y),
{
    lemma_fx_mul_unit(dx);
    lemma_fx_mul_unit(dy);
    lemma_fx_mul_whole_units(dx, 2);
    lemma_fx_mul_whole_units(dy, 2);
}

/// Aspect correction direction: on a wide surface (`w > h`) a sufficiently
/// large cursor x-offset maps to a strictly larger aspect-corrected offset —
/// and so, at zoom `1.0`, to a strictly larger world x-displacement — than
/// the same offset does on the transposed, tall surface.
pub proof fn lemma_aspect_direction(c: int, mx: int, w: int, h: int)
    requires
        1 <= h < w,
        mx * (w - h) >= h,
    ensures
        aspect_x(mx, w, h) > aspect_x(mx, h, w),
        world_x(c, SCALE as int, mx, w, h) - c > world_x(c, SCALE as int, mx, h, w) - c,
{
    assert(mx >= 1) by (nonlinear_arith)
        requires
            mx * (w - h) >= h,
            1 <= h < w,
    ;
    assert(mx * w >= (mx + 1) * h) by (nonlinear_arith)
        requires
            mx * (w - h) >= h,
    ;
    assert(mx * w > 0) by (nonlinear_arith)
        requires
            mx >= 1,
            w > 1,
    ;
    lemma_div_is_ordered((mx + 1) * h, mx * w, h);
    assert((mx + 1) * h == h * (mx + 1)) by (nonlinear_arith);
    lemma_div_multiples_vanish(mx + 1, h);
    lemma_div_pos_is_pos(mx * w, h);
    lemma_fx_mul_unit(aspect_x(mx, w, h));
    lemma_fx_mul_unit(aspect_x(mx, h, w));
}

} // verus!
