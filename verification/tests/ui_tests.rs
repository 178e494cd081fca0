use that_sky_ahook::layout::{input_rect_px, COLLAPSED_H, DEFAULT_H, DEFAULT_W, INPUT_BOTTOM};
use that_sky_ahook::main_thread::{
    take_pending_ops, MainThreadState, OP_FOCUS_LUA, OP_FOCUS_SETTINGS, OP_RESIZE,
    OP_UNFOCUS_LUA, OP_UNFOCUS_SETTINGS,
};
use that_sky_ahook::overlay::{
    apply_native_input, current_tab, drag_target, is_collapsed, reset_collapsed,
    script_to_queue, select_tab, set_tab_input_active, sync_due, toggle_collapsed,
    SettingsSync, Tab, UiState,
};
use that_sky_ahook::rules::{rules, DomainRule, HookSettings};
use that_sky_ahook::surface::{
    mark_alive, surface_alive, surface_changed, surface_created, surface_destroyed,
    surface_size, surface_wait_decision, window_size, window_size_checked, SurfaceState,
    SurfaceWait,
};

#[test]
fn window_constants() {
    assert_eq!((DEFAULT_W, DEFAULT_H, COLLAPSED_H, INPUT_BOTTOM), (960, 640, 80, 340));
}

#[test]
fn lua_input_rect() {
    assert_eq!(input_rect_px(), (19, 107, 922, 445));
}

#[test]
fn surface_lifecycle() {
    let mut s = SurfaceState::new();
    assert!(!surface_alive(&s));
    surface_created(&mut s);
    assert!(surface_alive(&s));
    surface_changed(&mut s, 900, -4);
    assert_eq!(surface_size(&s), (900, 0));
    surface_destroyed(&mut s);
    assert!(!surface_alive(&s));
    assert_eq!(surface_size(&s), (900, 0));
    mark_alive(&mut s);
    assert!(surface_alive(&s));
}

#[test]
fn window_size_fallbacks() {
    let mut s = SurfaceState::new();
    assert_eq!(window_size_checked(10, 0), None);
    assert_eq!(window_size_checked(10, 20), Some((10, 20)));
    assert_eq!(window_size(10, 20, &s), (10, 20));
    assert_eq!(window_size(0, 20, &s), (960, 640));
    surface_changed(&mut s, 700, 300);
    assert_eq!(window_size(-1, -1, &s), (700, 300));
}

#[test]
fn renderer_wait_decisions() {
    assert_eq!(surface_wait_decision(true, false), SurfaceWait::SwapPanel);
    assert_eq!(surface_wait_decision(false, false), SurfaceWait::RequestReinit);
    assert_eq!(surface_wait_decision(false, true), SurfaceWait::Retry);
}

#[test]
fn ui_starts_on_about_expanded() {
    let ui = UiState::new();
    assert_eq!(current_tab(&ui), Tab::About);
    assert!(!is_collapsed(&ui));
}

#[test]
fn tab_input_ops() {
    let mut mt = MainThreadState::new();
    assert!(!set_tab_input_active(&mut mt, Tab::About, true));
    assert_eq!(mt, MainThreadState::new());
    assert!(set_tab_input_active(&mut mt, Tab::Lua, true));
    assert!(!set_tab_input_active(&mut mt, Tab::Settings, false));
    assert_eq!(mt.pending_ops, OP_FOCUS_LUA | OP_UNFOCUS_SETTINGS);
}

#[test]
fn collapse_on_lua_tab_closes_keyboard_then_shrinks() {
    let mut ui = UiState::new();
    let mut mt = MainThreadState::new();
    assert!(select_tab(&mut ui, &mut mt, Tab::Lua));
    take_pending_ops(&mut mt);
    assert!(toggle_collapsed(&mut ui, &mut mt));
    assert!(is_collapsed(&ui));
    assert_eq!(mt.pending_ops, OP_UNFOCUS_LUA | OP_RESIZE);
    assert_eq!((mt.target_w, mt.target_h), (960, 80));
    take_pending_ops(&mut mt);
    assert!(toggle_collapsed(&mut ui, &mut mt));
    assert!(!is_collapsed(&ui));
    assert_eq!(mt.pending_ops, OP_RESIZE | OP_FOCUS_LUA);
    assert_eq!((mt.target_w, mt.target_h), (960, 640));
}

#[test]
fn collapse_on_about_only_resizes() {
    let mut ui = UiState::new();
    let mut mt = MainThreadState::new();
    assert!(toggle_collapsed(&mut ui, &mut mt));
    assert_eq!(mt.pending_ops, OP_RESIZE);
    let ui_before = ui;
    assert!(!toggle_collapsed(&mut ui, &mut mt));
    assert!(!toggle_collapsed(&mut ui, &mut mt));
    assert_eq!(ui, ui_before);
    reset_collapsed(&mut ui);
    assert!(!is_collapsed(&ui));
}

#[test]
fn switching_tabs_moves_the_keyboard() {
    let mut ui = UiState::new();
    let mut mt = MainThreadState::new();
    assert!(!select_tab(&mut ui, &mut mt, Tab::About));
    assert!(!select_tab(&mut ui, &mut mt, Tab::Console));
    assert_eq!(current_tab(&ui), Tab::Console);
    assert_eq!(mt.pending_ops, 0);
    assert!(select_tab(&mut ui, &mut mt, Tab::Settings));
    assert_eq!(mt.pending_ops, OP_FOCUS_SETTINGS);
    assert!(!select_tab(&mut ui, &mut mt, Tab::Lua));
    assert_eq!(mt.pending_ops, OP_FOCUS_SETTINGS | OP_UNFOCUS_SETTINGS | OP_FOCUS_LUA);
    assert_eq!(current_tab(&ui), Tab::Lua);
}

#[test]
fn settings_sync_is_throttled() {
    let mut sync = SettingsSync::new();
    assert!(sync_due(&mut sync, 1000));
    assert!(!sync_due(&mut sync, 1049));
    assert!(sync_due(&mut sync, 1050));
    assert_eq!(sync.last_sync_ms, Some(1050));
    assert!(!sync_due(&mut sync, 10));
}

#[test]
fn settings_text_change_commits_rules() {
    let mut sync = SettingsSync::new();
    let mut hooks = HookSettings::new();
    let moved = apply_native_input(&mut sync, &mut hooks, "a->b".to_string(), 4);
    assert_eq!(moved, Some(4));
    assert_eq!(sync.rules_text, "a->b");
    assert_eq!(
        rules(&hooks),
        vec![DomainRule {
            origin: "a".to_string(),
            origin_port: None,
            target: "b".to_string(),
            target_port: None,
        }]
    );
    assert_eq!(apply_native_input(&mut sync, &mut hooks, "a->b".to_string(), 4), None);
    assert_eq!(apply_native_input(&mut sync, &mut hooks, "a->b".to_string(), 1), Some(1));
    assert_eq!(sync.last_cursor, 1);
    assert_eq!(rules(&hooks).len(), 1);
}

#[test]
fn execute_skips_blank_scripts() {
    assert_eq!(script_to_queue(None), None);
    assert_eq!(script_to_queue(Some(" \n\t\u{3000}".to_string())), None);
    assert_eq!(
        script_to_queue(Some(" sle.log('hi') ".to_string())),
        Some(" sle.log('hi') ".to_string())
    );
}

#[test]
fn drag_moves_by_finger_distance() {
    assert_eq!(drag_target((100, 200), (15, -30)), (115, 170));
}
