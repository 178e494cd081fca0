//! Surface lifecycle state, as the SurfaceHolder callbacks report it, and the
//! window size the renderer uses.

use vstd::prelude::*;

use crate::layout::{DEFAULT_H, DEFAULT_W};

verus! {

/// Whether the SurfaceView surface exists, and its last reported size (px).
#[derive(Debug, Clone, Copy, PartialEq, Eq)]
pub struct SurfaceState {
    pub alive: bool,
    pub width: u32,
    pub height: u32,
}

impl SurfaceState {
    /// No surface yet, size unknown (0 x 0).
    pub fn new() -> (s: Self)
        ensures
            s == (SurfaceState { alive: false, width: 0, height: 0 }),
    {
        SurfaceState { alive: false, width: 0, height: 0 }
    }
}

/// Whether the SurfaceView surface currently exists.
pub fn surface_alive(state: &SurfaceState) -> (r: bool)
    ensures
        r == state.alive,
{
    state.alive
}

/// Mark the surface alive after a successful native window acquisition (the
/// holder callback can miss a recreate).
pub fn mark_alive(state: &mut SurfaceState)
    ensures
        *final(state) == (SurfaceState { alive: true, ..*old(state) }),
{
    state.alive = true;
}

/// Last known surface size from `surfaceChanged` (px).
pub fn surface_size(state: &SurfaceState) -> (r: (u32, u32))
    ensures
        r == (state.width, state.height),
{
    (state.width, state.height)
}

/// A reported dimension as a size: negative values count as 0.
pub open spec fn clamp_dimension(v: i32) -> u32 {
    if v < 0 {
        0
    } else {
        v as u32
    }
}

/// `SurfaceHolder.Callback.surfaceCreated`: the surface exists.
pub fn surface_created(state: &mut SurfaceState)
    ensures
        *final(state) == (SurfaceState { alive: true, ..*old(state) }),
{
    state.alive = true;
}

/// `SurfaceHolder.Callback.surfaceChanged`: the surface exists with the
/// reported size (negative dimensions count as 0).
pub fn surface_changed(state: &mut SurfaceState, width: i32, height: i32)
    ensures
        *final(state) == (SurfaceState {
            alive: true,
            width: clamp_dimension(width),
            height: clamp_dimension(height),
        }),
{
    state.alive = true;
    state.width = if width < 0 {
        0
    } else {
        width as u32
    };
    state.height = if height < 0 {
        0
    } else {
        height as u32
    };
}

/// `SurfaceHolder.Callback.surfaceDestroyed`: the surface is gone.
pub fn surface_destroyed(state: &mut SurfaceState)
    ensures
        *final(state) == (SurfaceState { alive: false, ..*old(state) }),
{
    state.alive = false;
}

/// The size a native window reports, or `None` while it is invalid (either
/// dimension not positive, e.g. during relayout).
pub fn window_size_checked(reported_w: i32, reported_h: i32) -> (r: Option<(u32, u32)>)
    ensures
        r == if reported_w > 0 && reported_h > 0 {
            Some((reported_w as u32, reported_h as u32))
        } else {
            None
        },
{
    if reported_w > 0 && reported_h > 0 {
        Some((reported_w as u32, reported_h as u32))
    } else {
        None
    }
}

/// Current window size in px: the size the native window reports, falling
/// back to the last `surfaceChanged` size, then to the default window size,
/// while the native window reports no valid size. Never zero.
pub fn window_size(reported_w: i32, reported_h: i32, state: &SurfaceState) -> (r: (u32, u32))
    ensures
        r == if reported_w > 0 && reported_h > 0 {
            (reported_w as u32, reported_h as u32)
        } else if state.width > 0 && state.height > 0 {
            (state.width, state.height)
        } else {
            (DEFAULT_W as u32, DEFAULT_H as u32)
        },
        r.0 > 0 && r.1 > 0,
{
    if let Some(size) = window_size_checked(reported_w, reported_h) {
        return size;
    }
    let (w, h) = surface_size(state);
    if w > 0 && h > 0 {
        (w, h)
    } else {
        (DEFAULT_W as u32, DEFAULT_H as u32)
    }
}

} // verus!

verus! {

/// What the renderer worker does when the surface did not come back in time.
#[derive(Debug, Clone, Copy, PartialEq, Eq, Structural)]
pub enum SurfaceWait {
    /// The overlay was set up again: drop the stale panel, take the new one.
    SwapPanel,
    /// The Activity is gone: ask for an overlay re-setup, drop the panel.
    RequestReinit,
    /// Keep waiting for this panel's surface.
    Retry,
}

/// The renderer worker's decision after a surface wait timed out: a newer
/// panel wins, then a dead Activity asks for re-setup, otherwise wait on.
pub fn surface_wait_decision(panel_replaced: bool, activity_alive: bool) -> (r: SurfaceWait)
    ensures
        r == if panel_replaced {
            SurfaceWait::SwapPanel
        } else if !activity_alive {
            SurfaceWait::RequestReinit
        } else {
            SurfaceWait::Retry
        },
{
    if panel_replaced {
        SurfaceWait::SwapPanel
    } else if !activity_alive {
        SurfaceWait::RequestReinit
    } else {
        SurfaceWait::Retry
    }
}

} // verus!
