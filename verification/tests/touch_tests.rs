use that_sky_ahook::touch::{gesture_events, GestureEvent, GestureTracker, TouchAction};

#[test]
fn action_codes() {
    assert_eq!(TouchAction::from_action_masked(0), Some(TouchAction::Down));
    assert_eq!(TouchAction::from_action_masked(1), Some(TouchAction::Up));
    assert_eq!(TouchAction::from_action_masked(2), Some(TouchAction::Move));
    assert_eq!(TouchAction::from_action_masked(3), Some(TouchAction::Cancel));
    assert_eq!(TouchAction::from_action_masked(5), None);
    assert_eq!(TouchAction::from_action_masked(-1), None);
}

#[test]
fn tap_gesture() {
    let mut t = GestureTracker::new();
    assert_eq!(
        gesture_events(&mut t, TouchAction::Down),
        vec![GestureEvent::TouchStart(1), GestureEvent::PointerPressed]
    );
    assert_eq!(
        gesture_events(&mut t, TouchAction::Move),
        vec![GestureEvent::TouchMove(1), GestureEvent::PointerMoved]
    );
    assert_eq!(
        gesture_events(&mut t, TouchAction::Up),
        vec![
            GestureEvent::TouchEnd(1),
            GestureEvent::PointerReleased,
            GestureEvent::PointerGone
        ]
    );
    assert_eq!(t, GestureTracker { next_touch_id: 2, active_touch_id: 0 });
}

#[test]
fn move_without_gesture_only_moves_pointer() {
    let mut t = GestureTracker::new();
    assert_eq!(gesture_events(&mut t, TouchAction::Move), vec![GestureEvent::PointerMoved]);
    assert_eq!(
        gesture_events(&mut t, TouchAction::Cancel),
        vec![GestureEvent::PointerReleased, GestureEvent::PointerGone]
    );
}

#[test]
fn lost_release_is_closed_by_next_down() {
    let mut t = GestureTracker::new();
    gesture_events(&mut t, TouchAction::Down);
    assert_eq!(
        gesture_events(&mut t, TouchAction::Down),
        vec![
            GestureEvent::TouchEnd(1),
            GestureEvent::PointerReleased,
            GestureEvent::PointerGone,
            GestureEvent::TouchStart(2),
            GestureEvent::PointerPressed
        ]
    );
    assert_eq!(t.active_touch_id, 2);
}

#[test]
fn id_counter_wraps() {
    let mut t = GestureTracker { next_touch_id: u64::MAX, active_touch_id: 0 };
    gesture_events(&mut t, TouchAction::Down);
    assert_eq!(t, GestureTracker { next_touch_id: 0, active_touch_id: u64::MAX });
    gesture_events(&mut t, TouchAction::Up);
    assert_eq!(
        gesture_events(&mut t, TouchAction::Down),
        vec![GestureEvent::PointerPressed]
    );
    assert_eq!(t, GestureTracker { next_touch_id: 1, active_touch_id: 0 });
}
