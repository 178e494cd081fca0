//! Overlay panel state: the selected tab, the collapsed flag, what switching
//! tabs and collapsing ask of the main thread, the Settings tab's sync with
//! its native input box, and the Lua tab's execute decision.

use vstd::prelude::*;

use crate::layout::{COLLAPSED_H, DEFAULT_H, DEFAULT_W};
use crate::main_thread;
use crate::main_thread::{
    resize_surface, set_lua_input_active, set_settings_input_active, MainThreadState,
    OP_FOCUS_LUA, OP_FOCUS_SETTINGS, OP_RESIZE, OP_UNFOCUS_LUA, OP_UNFOCUS_SETTINGS,
};
use crate::rules;
use crate::rules::{parse_rules, set_rules, HookSettings};
use crate::text;
use crate::text::{chars_of, trim_range};

verus! {

/// The panel's tabs.
#[derive(Debug, Clone, Copy, PartialEq, Eq, Structural)]
pub enum Tab {
    About,
    Console,
    Settings,
    Lua,
}

/// The panel state: selected tab and whether the window is collapsed to its
/// title bar.
#[derive(Debug, Clone, Copy, PartialEq, Eq)]
pub struct UiState {
    pub tab: Tab,
    pub collapsed: bool,
}

impl UiState {
    /// The About tab, expanded.
    pub fn new() -> (s: Self)
        ensures
            s == (UiState { tab: Tab::About, collapsed: false }),
    {
        UiState { tab: Tab::About, collapsed: false }
    }
}

/// The selected tab.
pub fn current_tab(ui: &UiState) -> (r: Tab)
    ensures
        r == ui.tab,
{
    ui.tab
}

/// Whether the whole window is collapsed to just the title bar.
pub fn is_collapsed(ui: &UiState) -> (r: bool)
    ensures
        r == ui.collapsed,
{
    ui.collapsed
}

/// Reset the collapsed state (the window is recreated at full size).
pub fn reset_collapsed(ui: &mut UiState)
    ensures
        *final(ui) == (UiState { collapsed: false, ..*old(ui) }),
{
    ui.collapsed = false;
}

/// Whether a tab owns a native input box (and so the keyboard).
pub open spec fn is_input_tab(tab: Tab) -> bool {
    tab == Tab::Lua || tab == Tab::Settings
}

/// The op that gives (`active`) or takes the keyboard for an input tab.
pub open spec fn tab_input_op(tab: Tab, active: bool) -> u32 {
    if tab == Tab::Lua {
        if active {
            OP_FOCUS_LUA
        } else {
            OP_UNFOCUS_LUA
        }
    } else {
        if active {
            OP_FOCUS_SETTINGS
        } else {
            OP_UNFOCUS_SETTINGS
        }
    }
}

/// What giving or taking the keyboard for `tab` does: an input tab requests
/// its focus op; any other tab changes nothing.
pub open spec fn tab_input_post(
    before: MainThreadState,
    after: MainThreadState,
    tab: Tab,
    active: bool,
    post: bool,
) -> bool {
    if is_input_tab(tab) {
        main_thread::request_post(before, after, tab_input_op(tab, active), post)
    } else {
        after == before && !post
    }
}

/// Grant/revoke keyboard access for `tab`'s input box, if it has one.
/// Returns whether the caller must post the main-thread task now.
pub fn set_tab_input_active(mt: &mut MainThreadState, tab: Tab, active: bool) -> (post: bool)
    ensures
        tab_input_post(*old(mt), *final(mt), tab, active, post),
{
    match tab {
        Tab::Lua => set_lua_input_active(mt, active),
        Tab::Settings => set_settings_input_active(mt, active),
        _ => false,
    }
}

/// What the collapse/expand toggle does: the collapsed flag flips; when
/// collapsing, the keyboard is taken first and the window shrinks to the
/// title bar; when expanding, the window is restored first and the keyboard
/// given back to an input tab. A task must be posted exactly when none was.
pub open spec fn toggle_post(
    ui0: UiState,
    ui1: UiState,
    mt0: MainThreadState,
    mt1: MainThreadState,
    post: bool,
) -> bool {
    let tab = ui0.tab;
    &&& ui1 == (UiState { collapsed: !ui0.collapsed, ..ui0 })
    &&& post == !mt0.task_posted
    &&& if !ui0.collapsed {
        exists|mid: MainThreadState, p: bool|
            tab_input_post(mt0, mid, tab, false, p) && main_thread::request_post(
                MainThreadState { target_w: DEFAULT_W, target_h: COLLAPSED_H, ..mid },
                mt1,
                OP_RESIZE,
                !mid.task_posted,
            )
    } else {
        exists|mid: MainThreadState|
            main_thread::request_post(
                MainThreadState { target_w: DEFAULT_W, target_h: DEFAULT_H, ..mt0 },
                mid,
                OP_RESIZE,
                !mt0.task_posted,
            ) && tab_input_post(mid, mt1, tab, true, false)
    }
}

/// Collapse/expand toggle click: shrink the whole window to the title bar
/// (closing the keyboard first) or restore it (then reopening the keyboard on
/// an input tab). Returns whether the caller must post the main-thread task.
pub fn toggle_collapsed(ui: &mut UiState, mt: &mut MainThreadState) -> (post: bool)
    ensures
        toggle_post(*old(ui), *final(ui), *old(mt), *final(mt), post),
{
    let next = !ui.collapsed;
    ui.collapsed = next;
    let tab = ui.tab;
    if next {
        let ghost mt0 = *mt;
        let p1 = set_tab_input_active(mt, tab, false);
        let ghost mid = *mt;
        let p2 = resize_surface(mt, DEFAULT_W, COLLAPSED_H);
        assert(tab_input_post(mt0, mid, tab, false, p1));
        p1 || p2
    } else {
        let p1 = resize_surface(mt, DEFAULT_W, DEFAULT_H);
        let ghost mid = *mt;
        let p2 = set_tab_input_active(mt, tab, true);
        assert(main_thread::request_post(
            MainThreadState { target_w: DEFAULT_W, target_h: DEFAULT_H, ..*old(mt) },
            mid,
            OP_RESIZE,
            !old(mt).task_posted,
        ));
        p1 || p2
    }
}

/// What choosing tab `t` does: nothing when it is already selected;
/// otherwise the keyboard is taken from the previous tab, given to `t` (for
/// input tabs) and `t` selected.
pub open spec fn select_tab_post(
    ui0: UiState,
    ui1: UiState,
    mt0: MainThreadState,
    mt1: MainThreadState,
    t: Tab,
    post: bool,
) -> bool {
    if t == ui0.tab {
        ui1 == ui0 && mt1 == mt0 && !post
    } else {
        &&& ui1 == (UiState { tab: t, ..ui0 })
        &&& post == (!mt0.task_posted && (is_input_tab(ui0.tab) || is_input_tab(t)))
        &&& exists|mid: MainThreadState, p1: bool, p2: bool|
            tab_input_post(mt0, mid, ui0.tab, false, p1) && tab_input_post(mid, mt1, t, true, p2)
    }
}

/// A tab-bar click on `t`: entering an input tab opens its keyboard,
/// leaving one closes it. Returns whether the caller must post the
/// main-thread task now.
pub fn select_tab(ui: &mut UiState, mt: &mut MainThreadState, t: Tab) -> (post: bool)
    ensures
        select_tab_post(*old(ui), *final(ui), *old(mt), *final(mt), t, post),
{
    if t == ui.tab {
        return false;
    }
    let prev = ui.tab;
    let ghost mt0 = *mt;
    let p1 = set_tab_input_active(mt, prev, false);
    let ghost mid = *mt;
    let p2 = set_tab_input_active(mt, t, true);
    ui.tab = t;
    assert(tab_input_post(mt0, mid, prev, false, p1) && tab_input_post(mid, *mt, t, true, p2));
    p1 || p2
}

/// Collapsing and then expanding again returns the panel to where it was.
pub proof fn law_toggle_twice_restores(
    ui0: UiState,
    ui1: UiState,
    ui2: UiState,
    mt0: MainThreadState,
    mt1: MainThreadState,
    mt2: MainThreadState,
    p1: bool,
    p2: bool,
)
    requires
        toggle_post(ui0, ui1, mt0, mt1, p1),
        toggle_post(ui1, ui2, mt1, mt2, p2),
    ensures
        ui2 == ui0,
        !p2,
{
}

/// The Settings tab's display buffer and its sync with the native input box.
pub struct SettingsSync {
    /// The rules text as displayed (synced from the native input box).
    pub rules_text: String,
    /// The last synced native cursor (char index).
    pub last_cursor: usize,
    /// When the native box was last read (ms, monotonic).
    pub last_sync_ms: Option<u64>,
}

/// The native box is read at most once per this many milliseconds.
pub const SYNC_INTERVAL_MS: u64 = 50;

impl SettingsSync {
    /// Empty text, cursor at 0, never synced.
    pub fn new() -> (s: Self)
        ensures
            s.rules_text@ == Seq::<char>::empty(),
            s.last_cursor == 0,
            s.last_sync_ms is None,
    {
        SettingsSync { rules_text: String::new(), last_cursor: 0, last_sync_ms: None }
    }
}

/// Whether a sync is due at `now`: never synced, or at least
/// [`SYNC_INTERVAL_MS`] since the last sync.
pub open spec fn sync_is_due(last: Option<u64>, now: u64) -> bool {
    match last {
        None => true,
        Some(t) => now >= t && now - t >= SYNC_INTERVAL_MS,
    }
}

/// Throttle for reading the native input box: reports whether a read is due
/// at `now` (ms, monotonic) and, when it is, records `now` as the last read.
pub fn sync_due(sync: &mut SettingsSync, now: u64) -> (due: bool)
    ensures
        due == sync_is_due(old(sync).last_sync_ms, now),
        final(sync).rules_text == old(sync).rules_text,
        final(sync).last_cursor == old(sync).last_cursor,
        final(sync).last_sync_ms == if due {
            Some(now)
        } else {
            old(sync).last_sync_ms
        },
{
    let due = match sync.last_sync_ms {
        None => true,
        Some(t) => now >= t && now - t >= SYNC_INTERVAL_MS,
    };
    if due {
        sync.last_sync_ms = Some(now);
    }
    due
}

/// Take the native box's text and cursor into the Settings tab. Changed text
/// becomes the display text and the active rules at once, and the caret
/// follows the native cursor; a cursor-only move just moves the caret.
/// Returns the char index the egui caret must move to, if any.
pub fn apply_native_input(
    sync: &mut SettingsSync,
    hooks: &mut HookSettings,
    text: String,
    cursor: usize,
) -> (moved: Option<usize>)
    ensures
        old(sync).rules_text@ != text@ ==> {
            &&& final(sync).rules_text@ == text@
            &&& final(sync).last_cursor == cursor
            &&& moved == Some(cursor)
            &&& rules::set_rules_post(*old(hooks), *final(hooks), final(hooks).active_rules@)
            &&& final(hooks).active() == rules::parse_rules_spec(text@)
        },
        old(sync).rules_text@ == text@ ==> {
            &&& final(sync).rules_text == old(sync).rules_text
            &&& *final(hooks) == *old(hooks)
            &&& final(sync).last_cursor == cursor
            &&& moved == if old(sync).last_cursor != cursor {
                Some(cursor)
            } else {
                None
            }
        },
        final(sync).last_sync_ms == old(sync).last_sync_ms,
{
    if !(sync.rules_text == text) {
        let parsed = parse_rules(text.as_str());
        set_rules(hooks, parsed);
        sync.rules_text = text;
        sync.last_cursor = cursor;
        Some(cursor)
    } else if sync.last_cursor != cursor {
        sync.last_cursor = cursor;
        Some(cursor)
    } else {
        None
    }
}

/// The script the Lua tab's Execute button queues: the native box's text,
/// unless it is missing or only whitespace (then nothing is queued).
pub fn script_to_queue(input: Option<String>) -> (r: Option<String>)
    ensures
        r == match input {
            Some(s) => if text::trim(s@).len() == 0 {
                None
            } else {
                Some(s)
            },
            None => None,
        },
{
    let script = match input {
        Some(s) => s,
        None => return None,
    };
    let cs = chars_of(script.as_str());
    assert(cs@.subrange(0, cs@.len() as int) =~= cs@);
    let (a, b) = trim_range(&cs, 0, cs.len());
    if a == b {
        assert(cs@.subrange(a as int, b as int).len() == 0);
        None
    } else {
        Some(script)
    }
}

} // verus!

verus! {

/// Title-bar drag: where the window goes, given where it was when the drag
/// started and how far (rounded px) the finger has moved in screen
/// coordinates since. Screen coordinates do not move with the window, so
/// there is no feedback loop.
pub fn drag_target(start_window: (i32, i32), moved: (i32, i32)) -> (r: (i32, i32))
    requires
        i32::MIN <= start_window.0 + moved.0 <= i32::MAX,
        i32::MIN <= start_window.1 + moved.1 <= i32::MAX,
    ensures
        r.0 == start_window.0 + moved.0,
        r.1 == start_window.1 + moved.1,
{
    (start_window.0 + moved.0, start_window.1 + moved.1)
}

} // verus!

verus! {

/// The collapse/expand toggle in terms of what it asks of the main thread:
/// the window is resized to the title bar (collapsing) or back to full size
/// (expanding); collapsing on the Lua or Settings tab also takes that tab's
/// keyboard away, and expanding on it gives the keyboard back; on the other
/// tabs only the resize is asked for. Positions, cursor and move throttle
/// are untouched, and a task counts as posted afterwards.
pub proof fn law_toggle_moves_keyboard(
    ui0: UiState,
    ui1: UiState,
    mt0: MainThreadState,
    mt1: MainThreadState,
    post: bool,
)
    requires
        toggle_post(ui0, ui1, mt0, mt1, post),
    ensures
        ui1.collapsed == !ui0.collapsed,
        ui1.tab == ui0.tab,
        mt1.task_posted,
        mt1.target_w == DEFAULT_W,
        mt1.target_h == if ui0.collapsed {
            DEFAULT_H
        } else {
            COLLAPSED_H
        },
        ui0.collapsed && ui0.tab == Tab::Lua ==> mt1.pending_ops == (mt0.pending_ops | OP_RESIZE)
            | OP_FOCUS_LUA,
        ui0.collapsed && ui0.tab == Tab::Settings ==> mt1.pending_ops == (mt0.pending_ops
            | OP_RESIZE) | OP_FOCUS_SETTINGS,
        !ui0.collapsed && ui0.tab == Tab::Lua ==> mt1.pending_ops == (mt0.pending_ops
            | OP_UNFOCUS_LUA) | OP_RESIZE,
        !ui0.collapsed && ui0.tab == Tab::Settings ==> mt1.pending_ops == (mt0.pending_ops
            | OP_UNFOCUS_SETTINGS) | OP_RESIZE,
        (ui0.tab == Tab::About || ui0.tab == Tab::Console) ==> mt1.pending_ops == mt0.pending_ops
            | OP_RESIZE,
        mt1.target_x == mt0.target_x && mt1.target_y == mt0.target_y,
        mt1.window_x == mt0.window_x && mt1.window_y == mt0.window_y,
        mt1.cursor_char_idx == mt0.cursor_char_idx,
        mt1.move_last_post_ms == mt0.move_last_post_ms,
{
}

/// Collapsing and expanding again on an input tab asks for that tab's
/// keyboard again: the focus op is pending afterwards.
pub proof fn law_collapse_expand_reopens_keyboard(
    ui0: UiState,
    ui1: UiState,
    ui2: UiState,
    mt0: MainThreadState,
    mt1: MainThreadState,
    mt2: MainThreadState,
    p1: bool,
    p2: bool,
)
    requires
        !ui0.collapsed,
        is_input_tab(ui0.tab),
        toggle_post(ui0, ui1, mt0, mt1, p1),
        toggle_post(ui1, ui2, mt1, mt2, p2),
    ensures
        !ui2.collapsed,
        ui0.tab == Tab::Lua ==> mt2.pending_ops & OP_FOCUS_LUA != 0,
        ui0.tab == Tab::Settings ==> mt2.pending_ops & OP_FOCUS_SETTINGS != 0,
{
    law_toggle_moves_keyboard(ui1, ui2, mt1, mt2, p2);
    let q = mt1.pending_ops | OP_RESIZE;
    assert((q | 8u32) & 8u32 != 0) by (bit_vector);
    assert((q | 32u32) & 32u32 != 0) by (bit_vector);
}

} // verus!

verus! {

/// Switching tabs moves the keyboard: leaving the Lua or Settings tab asks
/// for its keyboard to be taken, entering one asks for its keyboard to be
/// given; switching between the other tabs asks for nothing, and choosing
/// the selected tab changes nothing.
pub proof fn law_select_tab_moves_keyboard(
    ui0: UiState,
    ui1: UiState,
    mt0: MainThreadState,
    mt1: MainThreadState,
    t: Tab,
    post: bool,
)
    requires
        select_tab_post(ui0, ui1, mt0, mt1, t, post),
    ensures
        ui1.tab == t,
        ui1.collapsed == ui0.collapsed,
        t == ui0.tab ==> mt1 == mt0 && !post,
        t != ui0.tab && ui0.tab == Tab::Lua ==> mt1.pending_ops & OP_UNFOCUS_LUA != 0,
        t != ui0.tab && ui0.tab == Tab::Settings ==> mt1.pending_ops & OP_UNFOCUS_SETTINGS != 0,
        t != ui0.tab && t == Tab::Lua ==> mt1.pending_ops & OP_FOCUS_LUA != 0,
        t != ui0.tab && t == Tab::Settings ==> mt1.pending_ops & OP_FOCUS_SETTINGS != 0,
        !is_input_tab(ui0.tab) && !is_input_tab(t) ==> mt1 == mt0 && !post,
{
    if t != ui0.tab {
        let mid = choose|mid: MainThreadState, p1: bool, p2: bool|
            tab_input_post(mt0, mid, ui0.tab, false, p1) && tab_input_post(mid, mt1, t, true, p2);
        assert(forall|x: u32, y: u32| #![auto] (x | y) & y == y) by (bit_vector);
        assert(forall|x: u32, y: u32, z: u32| #![auto] (x & z) != 0 ==> ((x | y) & z) != 0)
            by (bit_vector);
    }
}

} // verus!
