//! Fixed overlay geometry. The UI is laid out in points on a fixed
//! 600 x 400 canvas, drawn at 1.6 pixels per point; the scale is kept as
//! 16 pixels per 10 points so that every size is exact integer arithmetic.

use vstd::prelude::*;

verus! {

/// Logical UI width in points.
pub const UI_WIDTH: i32 = 600;

/// Logical UI height in points.
pub const UI_HEIGHT: i32 = 400;

/// Pixels per 10 points (1.6 pixels per point).
pub const PIXELS_PER_TEN_POINTS: i32 = 16;

/// Overlay window width in px: the UI width at the UI scale.
pub const DEFAULT_W: i32 = 960;

/// Overlay window height in px: the UI height at the UI scale.
pub const DEFAULT_H: i32 = 640;

/// Window height in px when collapsed to just the title bar.
pub const COLLAPSED_H: i32 = 80;

/// Top of the Lua input box, in points from the panel top-left.
pub const INPUT_TOP: i32 = 72;

/// Bottom of the Lua input box, in points from the panel top-left.
pub const INPUT_BOTTOM: i32 = UI_HEIGHT - 60;

/// The default window is exactly the UI canvas at the UI scale, so egui and
/// the surface stay the same size.
pub proof fn law_window_matches_ui_scale()
    ensures
        DEFAULT_W == UI_WIDTH * PIXELS_PER_TEN_POINTS / 10,
        DEFAULT_H == UI_HEIGHT * PIXELS_PER_TEN_POINTS / 10,
{
}

/// A non-negative length given in tenths of a pixel, rounded to the nearest
/// pixel (halves away from zero, as `f32::round` does).
pub open spec fn round_tenths(tenths: int) -> int {
    (tenths + 5) / 10
}

fn round_tenths_exec(tenths: i32) -> (r: i32)
    requires
        0 <= tenths <= 100_000,
    ensures
        r == round_tenths(tenths as int),
{
    (tenths + 5) / 10
}

/// Px rectangle (left, top, width, height) of the native Lua input box: the
/// panel frame margin (12 points) on each side, from 8 px above the box top
/// to 8 px below its bottom.
pub fn input_rect_px() -> (r: (i32, i32, i32, i32))
    ensures
        r.0 == round_tenths(12 * PIXELS_PER_TEN_POINTS),
        r.2 == round_tenths(UI_WIDTH * PIXELS_PER_TEN_POINTS) - 2 * r.0,
        r.1 == round_tenths(INPUT_TOP * PIXELS_PER_TEN_POINTS - 80),
        r.3 == round_tenths((INPUT_BOTTOM - INPUT_TOP) * PIXELS_PER_TEN_POINTS + 160),
{
    let margin = round_tenths_exec(12 * PIXELS_PER_TEN_POINTS);
    let w = round_tenths_exec(UI_WIDTH * PIXELS_PER_TEN_POINTS) - margin * 2;
    let top = round_tenths_exec(INPUT_TOP * PIXELS_PER_TEN_POINTS - 80);
    let h = round_tenths_exec((INPUT_BOTTOM - INPUT_TOP) * PIXELS_PER_TEN_POINTS + 160);
    (margin, top, w, h)
}

} // verus!
