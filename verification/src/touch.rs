//! Touch input: the single-pointer actions the overlay handles, and the
//! gesture tracking that turns them into touch and pointer events with a
//! touch id that stays stable from finger down to finger up.

use vstd::prelude::*;

verus! {

/// Touch action (`MotionEvent.getActionMasked()`), single-pointer subset.
#[derive(Debug, Clone, Copy, PartialEq, Eq, Structural)]
pub enum TouchAction {
    Down,
    Up,
    Move,
    Cancel,
}

impl TouchAction {
    /// The action for an Android action code: `ACTION_DOWN` (0), `ACTION_UP`
    /// (1), `ACTION_MOVE` (2), `ACTION_CANCEL` (3); other (multi-pointer)
    /// codes are ignored.
    pub fn from_action_masked(action: i32) -> (r: Option<TouchAction>)
        ensures
            r == if action == 0 {
                Some(TouchAction::Down)
            } else if action == 1 {
                Some(TouchAction::Up)
            } else if action == 2 {
                Some(TouchAction::Move)
            } else if action == 3 {
                Some(TouchAction::Cancel)
            } else {
                None
            },
    {
        match action {
            0 => Some(TouchAction::Down),
            1 => Some(TouchAction::Up),
            2 => Some(TouchAction::Move),
            3 => Some(TouchAction::Cancel),
            _ => None,
        }
    }
}

/// One event for the UI, at the position of the touch that caused it.
#[derive(Debug, Clone, Copy, PartialEq, Eq, Structural)]
pub enum GestureEvent {
    /// A touch with this id started.
    TouchStart(u64),
    /// The touch with this id moved.
    TouchMove(u64),
    /// The touch with this id ended.
    TouchEnd(u64),
    /// The primary pointer button went down.
    PointerPressed,
    /// The primary pointer button went up.
    PointerReleased,
    /// The pointer moved.
    PointerMoved,
    /// The pointer left (clears hover after a release).
    PointerGone,
}

/// Gesture ids: the next id to hand out and the id of the gesture in
/// progress (0: none).
#[derive(Debug, Clone, Copy, PartialEq, Eq)]
pub struct GestureTracker {
    pub next_touch_id: u64,
    pub active_touch_id: u64,
}

impl GestureTracker {
    /// Ids start at 1; no gesture in progress.
    pub fn new() -> (t: Self)
        ensures
            t == (GestureTracker { next_touch_id: 1, active_touch_id: 0 }),
    {
        GestureTracker { next_touch_id: 1, active_touch_id: 0 }
    }
}

/// The touch event for a gesture id, when there is a gesture (id not 0).
pub open spec fn touch_event_if(id: u64, event: GestureEvent) -> Seq<GestureEvent> {
    if id != 0 {
        seq![event]
    } else {
        Seq::empty()
    }
}

/// What one touch action does to the tracker and which events it yields.
///
/// Down first closes a gesture that never ended (its Up or Cancel was lost,
/// e.g. while the window relaid out) with a touch end, a release and a
/// pointer-gone, then starts a new gesture with the next id and presses.
/// Move moves the gesture in progress and the pointer. Up and Cancel end
/// the gesture in progress, release, and report the pointer gone.
pub open spec fn gesture_step(t: GestureTracker, action: TouchAction) -> (GestureTracker, Seq<
    GestureEvent,
>) {
    match action {
        TouchAction::Down => {
            let close = if t.active_touch_id != 0 {
                seq![
                    GestureEvent::TouchEnd(t.active_touch_id),
                    GestureEvent::PointerReleased,
                    GestureEvent::PointerGone,
                ]
            } else {
                Seq::empty()
            };
            let id = t.next_touch_id;
            (
                GestureTracker {
                    next_touch_id: vstd::wrapping::u64_specs::wrapping_add(id, 1),
                    active_touch_id: id,
                },
                close + touch_event_if(id, GestureEvent::TouchStart(id)) + seq![
                    GestureEvent::PointerPressed,
                ],
            )
        },
        TouchAction::Move => (
            t,
            touch_event_if(t.active_touch_id, GestureEvent::TouchMove(t.active_touch_id))
                + seq![GestureEvent::PointerMoved],
        ),
        TouchAction::Up | TouchAction::Cancel => (
            GestureTracker { active_touch_id: 0, ..t },
            touch_event_if(t.active_touch_id, GestureEvent::TouchEnd(t.active_touch_id)) + seq![
                GestureEvent::PointerReleased,
                GestureEvent::PointerGone,
            ],
        ),
    }
}

/// Map one touch action to UI events, tracking the gesture id.
pub fn gesture_events(tracker: &mut GestureTracker, action: TouchAction) -> (events: Vec<
    GestureEvent,
>)
    ensures
        (*final(tracker), events@) == gesture_step(*old(tracker), action),
{
    let mut events: Vec<GestureEvent> = Vec::new();
    let touch = match action {
        TouchAction::Down => {
            let prev = tracker.active_touch_id;
            tracker.active_touch_id = 0;
            if prev != 0 {
                events.push(GestureEvent::TouchEnd(prev));
                events.push(GestureEvent::PointerReleased);
                events.push(GestureEvent::PointerGone);
            }
            let id = tracker.next_touch_id;
            tracker.next_touch_id = id.wrapping_add(1);
            tracker.active_touch_id = id;
            GestureEvent::TouchStart(id)
        },
        TouchAction::Move => GestureEvent::TouchMove(tracker.active_touch_id),
        TouchAction::Up | TouchAction::Cancel => {
            let id = tracker.active_touch_id;
            tracker.active_touch_id = 0;
            GestureEvent::TouchEnd(id)
        },
    };
    let ghost before_touch = events@;
    let id = match touch {
        GestureEvent::TouchStart(id) => id,
        GestureEvent::TouchMove(id) => id,
        GestureEvent::TouchEnd(id) => id,
        _ => 0,
    };
    if id != 0 {
        events.push(touch);
    }
    let ghost before_pointer = events@;
    match action {
        TouchAction::Down => {
            events.push(GestureEvent::PointerPressed);
        },
        TouchAction::Move => {
            events.push(GestureEvent::PointerMoved);
        },
        TouchAction::Up | TouchAction::Cancel => {
            events.push(GestureEvent::PointerReleased);
            events.push(GestureEvent::PointerGone);
        },
    }
    assert(events@ =~= gesture_step(*old(tracker), action).1);
    events
}

/// A new finger-down never runs two gestures at once: the gesture it starts
/// is the only one in progress, it gets a fresh id (different from the one
/// it ends), and any gesture still open is ended first.
pub proof fn law_down_ends_previous_gesture(t: GestureTracker)
    ensures
        ({
            let (after, events) = gesture_step(t, TouchAction::Down);
            &&& after.active_touch_id == t.next_touch_id
            &&& after.next_touch_id != t.next_touch_id
            &&& t.active_touch_id != 0 ==> events[0] == GestureEvent::TouchEnd(t.active_touch_id)
        }),
{
}

/// After the finger is lifted (or the touch cancelled) no gesture is in
/// progress, and the ids to hand out are unchanged.
pub proof fn law_release_ends_gesture(t: GestureTracker, action: TouchAction)
    requires
        action == TouchAction::Up || action == TouchAction::Cancel,
    ensures
        gesture_step(t, action).0.active_touch_id == 0,
        gesture_step(t, action).0.next_touch_id == t.next_touch_id,
{
}

} // verus!

verus! {

/// Lifting the finger and cancelling the touch end a gesture the same way:
/// both leave no gesture in progress and give the same events, which begin
/// with the end of the gesture in progress (when there is one) and finish
/// with a release and a pointer-gone.
pub proof fn law_up_and_cancel_end_the_gesture(t: GestureTracker)
    ensures
        gesture_step(t, TouchAction::Up) == gesture_step(t, TouchAction::Cancel),
        t.active_touch_id != 0 ==> gesture_step(t, TouchAction::Cancel).1[0]
            == GestureEvent::TouchEnd(t.active_touch_id),
        t.active_touch_id != 0 ==> gesture_step(t, TouchAction::Up).1[0] == GestureEvent::TouchEnd(
            t.active_touch_id,
        ),
        ({
            let ev = gesture_step(t, TouchAction::Cancel).1;
            &&& ev.len() >= 2
            &&& ev[ev.len() - 2] == GestureEvent::PointerReleased
            &&& ev[ev.len() - 1] == GestureEvent::PointerGone
        }),
{
}

/// Every gesture that is started is ended: after a finger-down that starts
/// gesture `id` (not 0), whatever comes next that ends a gesture (up,
/// cancel, or another finger-down) yields `TouchEnd(id)` first, and a move
/// in between moves that same gesture.
pub proof fn law_started_gesture_is_ended(t: GestureTracker, next: TouchAction)
    requires
        t.next_touch_id != 0,
    ensures
        ({
            let (t1, ev1) = gesture_step(t, TouchAction::Down);
            let id = t.next_touch_id;
            &&& ev1.contains(GestureEvent::TouchStart(id))
            &&& t1.active_touch_id == id
            &&& (next == TouchAction::Move ==> gesture_step(t1, next).1[0]
                == GestureEvent::TouchMove(id) && gesture_step(t1, next).0.active_touch_id == id)
            &&& (next != TouchAction::Move ==> gesture_step(t1, next).1[0]
                == GestureEvent::TouchEnd(id))
        }),
{
    let (t1, ev1) = gesture_step(t, TouchAction::Down);
    let id = t.next_touch_id;
    let close = if t.active_touch_id != 0 {
        seq![
            GestureEvent::TouchEnd(t.active_touch_id),
            GestureEvent::PointerReleased,
            GestureEvent::PointerGone,
        ]
    } else {
        Seq::<GestureEvent>::empty()
    };
    assert(ev1[close.len() as int] == GestureEvent::TouchStart(id));
}

} // verus!
