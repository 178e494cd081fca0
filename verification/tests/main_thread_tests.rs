use that_sky_ahook::main_thread::{
    char_idx_to_utf16, cursor_target, focus_flags, main_thread_ops, move_surface_at,
    move_surface_to, move_target, record_window_pos, request_main_thread_op, resize_surface,
    resize_target, selection_char_index, set_lua_input_active, set_settings_cursor,
    set_settings_input_active, take_pending_ops, utf16_to_char_idx, window_pos, MainOp,
    MainThreadState, OP_FOCUS_LUA, OP_FOCUS_SETTINGS, OP_MOVE, OP_REINIT, OP_RESIZE,
    OP_SET_CURSOR, OP_UNFOCUS_LUA, OP_UNFOCUS_SETTINGS,
};

#[test]
fn initial_state() {
    let s = MainThreadState::new();
    assert_eq!(window_pos(&s), (100, 200));
    assert_eq!(move_target(&s), (100, 200));
    assert_eq!(s.pending_ops, 0);
    assert!(!s.task_posted);
}

#[test]
fn only_one_post_in_flight() {
    let mut s = MainThreadState::new();
    assert!(request_main_thread_op(&mut s, OP_RESIZE));
    assert!(!request_main_thread_op(&mut s, OP_FOCUS_LUA));
    assert_eq!(s.pending_ops, OP_RESIZE | OP_FOCUS_LUA);
    assert_eq!(take_pending_ops(&mut s), OP_RESIZE | OP_FOCUS_LUA);
    assert_eq!(s.pending_ops, 0);
    assert!(!s.task_posted);
    assert!(request_main_thread_op(&mut s, OP_MOVE));
}

#[test]
fn move_is_throttled() {
    let mut s = MainThreadState::new();
    assert!(!move_surface_at(&mut s, 5, 6, 10));
    assert_eq!(move_target(&s), (5, 6));
    assert_eq!(s.pending_ops, 0);
    assert!(move_surface_at(&mut s, 7, 8, 33));
    assert_eq!(s.move_last_post_ms, 33);
    assert_eq!(s.pending_ops, OP_MOVE);
    take_pending_ops(&mut s);
    assert!(!move_surface_at(&mut s, 9, 9, 65));
    assert!(move_surface_at(&mut s, 9, 9, 66));
    assert!(!move_surface_at(&mut s, 1, 1, 20));
    assert_eq!(move_target(&s), (1, 1));
}

#[test]
fn move_with_the_wall_clock_posts_once() {
    let mut s = MainThreadState::new();
    assert!(move_surface_to(&mut s, 300, 400));
    assert_eq!(move_target(&s), (300, 400));
    assert_eq!(s.pending_ops, OP_MOVE);
    assert!(s.move_last_post_ms > 0);
}

#[test]
fn record_move_and_resize_targets() {
    let mut s = MainThreadState::new();
    record_window_pos(&mut s, 11, 12);
    assert_eq!(window_pos(&s), (11, 12));
    assert!(resize_surface(&mut s, 960, 80));
    assert_eq!(resize_target(&s), (960, 80));
    assert_eq!(s.pending_ops, OP_RESIZE);
}

#[test]
fn focus_requests() {
    let mut s = MainThreadState::new();
    set_lua_input_active(&mut s, true);
    set_lua_input_active(&mut s, false);
    set_settings_input_active(&mut s, true);
    set_settings_input_active(&mut s, false);
    assert_eq!(
        s.pending_ops,
        OP_FOCUS_LUA | OP_UNFOCUS_LUA | OP_FOCUS_SETTINGS | OP_UNFOCUS_SETTINGS
    );
}

#[test]
fn cursor_request_wraps_like_a_cast() {
    let mut s = MainThreadState::new();
    set_settings_cursor(&mut s, 42);
    assert_eq!(s.cursor_char_idx, 42);
    assert_eq!(cursor_target(&s), 42);
    assert_eq!(s.pending_ops, OP_SET_CURSOR);
    set_settings_cursor(&mut s, 0x8000_0000usize);
    assert_eq!(s.cursor_char_idx, i32::MIN);
    assert_eq!(cursor_target(&s), 0);
}

#[test]
fn ops_run_in_fixed_order() {
    assert_eq!(
        main_thread_ops(0xFF),
        vec![
            MainOp::Move,
            MainOp::Resize,
            MainOp::UnfocusLua,
            MainOp::UnfocusSettings,
            MainOp::FocusLua,
            MainOp::FocusSettings,
            MainOp::SetCursor,
            MainOp::Reinit,
        ]
    );
    assert_eq!(
        main_thread_ops(OP_SET_CURSOR | OP_FOCUS_SETTINGS | OP_UNFOCUS_LUA),
        vec![MainOp::UnfocusLua, MainOp::FocusSettings, MainOp::SetCursor]
    );
    assert_eq!(main_thread_ops(OP_REINIT), vec![MainOp::Reinit]);
    assert_eq!(main_thread_ops(0), vec![]);
    assert_eq!(main_thread_ops(0x100), vec![]);
}

#[test]
fn focus_flags_toggle_not_focusable() {
    assert_eq!(focus_flags(0x28, true), 0x20);
    assert_eq!(focus_flags(0x20, false), 0x28);
    assert_eq!(focus_flags(focus_flags(0x7f, true), false), 0x7f);
    assert_eq!(focus_flags(-1, true), -9);
}

#[test]
fn utf16_conversions() {
    let s = "a😀b";
    assert_eq!(char_idx_to_utf16(s, 0), 0);
    assert_eq!(char_idx_to_utf16(s, 1), 1);
    assert_eq!(char_idx_to_utf16(s, 2), 3);
    assert_eq!(char_idx_to_utf16(s, 3), 4);
    assert_eq!(char_idx_to_utf16(s, 99), 4);
    assert_eq!(utf16_to_char_idx(s, 0), 0);
    assert_eq!(utf16_to_char_idx(s, 1), 1);
    assert_eq!(utf16_to_char_idx(s, 2), 2);
    assert_eq!(utf16_to_char_idx(s, 3), 2);
    assert_eq!(utf16_to_char_idx(s, 4), 3);
    assert_eq!(utf16_to_char_idx(s, 50), 3);
}

#[test]
fn utf16_round_trip() {
    let s = "xé😀中\u{10FFFF}z";
    for k in 0..=s.chars().count() {
        let u = char_idx_to_utf16(s, k);
        assert_eq!(utf16_to_char_idx(s, u as usize), k);
    }
}

#[test]
fn selection_index_clamps_negative() {
    assert_eq!(selection_char_index("😀😀", -3), 0);
    assert_eq!(selection_char_index("😀😀", 2), 1);
    assert_eq!(selection_char_index("😀😀", 3), 2);
}

#[test]
fn every_requested_op_runs_once() {
    let bits = [
        (OP_MOVE, MainOp::Move),
        (OP_RESIZE, MainOp::Resize),
        (OP_UNFOCUS_LUA, MainOp::UnfocusLua),
        (OP_UNFOCUS_SETTINGS, MainOp::UnfocusSettings),
        (OP_FOCUS_LUA, MainOp::FocusLua),
        (OP_FOCUS_SETTINGS, MainOp::FocusSettings),
        (OP_SET_CURSOR, MainOp::SetCursor),
        (OP_REINIT, MainOp::Reinit),
    ];
    for (bit, op) in bits {
        let mut s = MainThreadState::new();
        request_main_thread_op(&mut s, OP_MOVE);
        request_main_thread_op(&mut s, bit);
        let ops = main_thread_ops(take_pending_ops(&mut s));
        assert_eq!(ops.iter().filter(|o| **o == op).count(), 1);
    }
}
