//! Cross-thread requests to the Android main thread: window moves and
//! resizes, input focus changes and cursor moves are recorded here, coalesced
//! into a bit set of pending operations, and run by one posted task at a
//! time, in a fixed order.

use vstd::prelude::*;

use crate::text::chars_of;

verus! {

/// Move the window to the recorded target position.
pub const OP_MOVE: u32 = 1;

/// Re-run the overlay setup (the Activity was recreated).
pub const OP_REINIT: u32 = 2;

/// Resize the window to the recorded target size.
pub const OP_RESIZE: u32 = 4;

/// Give the Lua tab's input box the keyboard.
pub const OP_FOCUS_LUA: u32 = 8;

/// Take the keyboard from the Lua tab's input box.
pub const OP_UNFOCUS_LUA: u32 = 16;

/// Give the Settings tab's input box the keyboard.
pub const OP_FOCUS_SETTINGS: u32 = 32;

/// Take the keyboard from the Settings tab's input box.
pub const OP_UNFOCUS_SETTINGS: u32 = 64;

/// Move the Settings input box's cursor to the recorded char index.
pub const OP_SET_CURSOR: u32 = 128;

/// The window's `FLAG_NOT_FOCUSABLE` bit (cleared while an input tab edits).
pub const FLAG_NOT_FOCUSABLE: i32 = 8;

/// Posting a window move is throttled to one per this many milliseconds.
pub const MOVE_THROTTLE_MS: u64 = 33;

/// What the main thread records and what other threads ask of it.
#[derive(Debug, Clone, Copy, PartialEq, Eq)]
pub struct MainThreadState {
    /// Where the next window move goes (screen px).
    pub target_x: i32,
    pub target_y: i32,
    /// Where the window is (screen px), as of the last applied move.
    pub window_x: i32,
    pub window_y: i32,
    /// When a move task was last posted (ms since the Unix epoch).
    pub move_last_post_ms: u64,
    /// The operations asked for and not yet taken by a task run.
    pub pending_ops: u32,
    /// Whether a task is posted and has not started yet.
    pub task_posted: bool,
    /// The char index the Settings input cursor should move to.
    pub cursor_char_idx: i32,
    /// The size the next window resize applies (px).
    pub target_w: i32,
    pub target_h: i32,
}

/// One main-thread operation, as a task run performs them.
#[derive(Debug, Clone, Copy, PartialEq, Eq)]
pub enum MainOp {
    Move,
    Resize,
    UnfocusLua,
    UnfocusSettings,
    FocusLua,
    FocusSettings,
    SetCursor,
    Reinit,
}

impl MainThreadState {
    /// The state at process start: window and target at (100, 200), nothing
    /// pending or posted.
    pub fn new() -> (s: Self)
        ensures
            s == (MainThreadState {
                target_x: 100,
                target_y: 200,
                window_x: 100,
                window_y: 200,
                move_last_post_ms: 0,
                pending_ops: 0,
                task_posted: false,
                cursor_char_idx: 0,
                target_w: 0,
                target_h: 0,
            }),
    {
        MainThreadState {
            target_x: 100,
            target_y: 200,
            window_x: 100,
            window_y: 200,
            move_last_post_ms: 0,
            pending_ops: 0,
            task_posted: false,
            cursor_char_idx: 0,
            target_w: 0,
            target_h: 0,
        }
    }
}

/// What asking for `op` does: `op` joins the pending set and a task counts
/// as posted; `post` tells whether the caller must post it now (no other
/// task was posted).
pub open spec fn request_post(
    before: MainThreadState,
    after: MainThreadState,
    op: u32,
    post: bool,
) -> bool {
    &&& after == (MainThreadState { pending_ops: before.pending_ops | op, task_posted: true, ..before })
    &&& post == !before.task_posted
}

/// Ask the main thread to run one or more ops (at most one post in flight).
/// Returns whether the caller must post the task now.
pub fn request_main_thread_op(state: &mut MainThreadState, op: u32) -> (post: bool)
    ensures
        request_post(*old(state), *final(state), op, post),
{
    state.pending_ops = state.pending_ops | op;
    let was_posted = state.task_posted;
    state.task_posted = true;
    !was_posted
}

/// Current window position in screen px (maintained by the main thread).
pub fn window_pos(state: &MainThreadState) -> (r: (i32, i32))
    ensures
        r == (state.window_x, state.window_y),
{
    (state.window_x, state.window_y)
}

/// What a move request at time `now` does: the target is recorded; unless a
/// move was posted less than [`MOVE_THROTTLE_MS`] earlier, the post time
/// becomes `now` and a move is requested.
pub open spec fn move_post(
    before: MainThreadState,
    after: MainThreadState,
    x: i32,
    y: i32,
    now: u64,
    post: bool,
) -> bool {
    let targeted = MainThreadState { target_x: x, target_y: y, ..before };
    if now >= before.move_last_post_ms && now - before.move_last_post_ms < MOVE_THROTTLE_MS {
        after == targeted && !post
    } else if now < before.move_last_post_ms {
        after == targeted && !post
    } else {
        request_post(MainThreadState { move_last_post_ms: now, ..targeted }, after, OP_MOVE, post)
    }
}

/// Move the window to absolute screen coords (x, y) at time `now` (ms):
/// record the target and, at most once per [`MOVE_THROTTLE_MS`], request a
/// move. Returns whether the caller must post the task now.
pub fn move_surface_at(state: &mut MainThreadState, x: i32, y: i32, now: u64) -> (post: bool)
    ensures
        move_post(*old(state), *final(state), x, y, now, post),
{
    state.target_x = x;
    state.target_y = y;
    let last = state.move_last_post_ms;
    if now.saturating_sub(last) < MOVE_THROTTLE_MS {
        return false;
    }
    state.move_last_post_ms = now;
    request_main_thread_op(state, OP_MOVE)
}

/// Move the window to absolute screen coords (x, y), throttled by the wall
/// clock. Returns whether the caller must post the task now.
pub fn move_surface_to(state: &mut MainThreadState, x: i32, y: i32) -> (post: bool)
    ensures
        exists|now: u64| move_post(*old(state), *final(state), x, y, now, post),
{
    let now = now_ms();
    move_surface_at(state, x, y, now)
}

/// `std::time::SystemTime`, carried through unread.
#[verifier::external_type_specification]
#[verifier::external_body]
pub struct ExSystemTime(std::time::SystemTime);

/// `SystemTime::now`: the wall clock; nothing is claimed of the value.
#[verifier::external_body]
fn system_time_now() -> std::time::SystemTime {
    std::time::SystemTime::now()
}

/// `SystemTime::duration_since(UNIX_EPOCH)`, `None` for a time before the
/// epoch; nothing is claimed of the value.
#[verifier::external_body]
fn since_unix_epoch(t: &std::time::SystemTime) -> Option<std::time::Duration> {
    t.duration_since(std::time::UNIX_EPOCH).ok()
}

/// `Duration::as_millis`: whole milliseconds; nothing is claimed of the
/// value (`Duration` is opaque here).
#[verifier::external_body]
fn duration_millis(d: &std::time::Duration) -> u128 {
    d.as_millis()
}

/// Monotonic-ish millisecond timestamp (wall clock, fine for throttling);
/// 0 when the clock is before the Unix epoch.
pub fn now_ms() -> u64 {
    let t = system_time_now();
    match since_unix_epoch(&t) {
        Some(d) => {
            let ms = duration_millis(&d);
            ms as u64
        },
        None => 0,
    }
}

/// Resize the whole SurfaceView window (px), applied on the main thread.
/// Returns whether the caller must post the task now.
pub fn resize_surface(state: &mut MainThreadState, width: i32, height: i32) -> (post: bool)
    ensures
        request_post(
            MainThreadState { target_w: width, target_h: height, ..*old(state) },
            *final(state),
            OP_RESIZE,
            post,
        ),
{
    state.target_w = width;
    state.target_h = height;
    request_main_thread_op(state, OP_RESIZE)
}

/// Grant/revoke keyboard access for the Lua tab (window focus + IME).
/// Returns whether the caller must post the task now.
pub fn set_lua_input_active(state: &mut MainThreadState, active: bool) -> (post: bool)
    ensures
        request_post(
            *old(state),
            *final(state),
            if active {
                OP_FOCUS_LUA
            } else {
                OP_UNFOCUS_LUA
            },
            post,
        ),
{
    request_main_thread_op(
        state,
        if active {
            OP_FOCUS_LUA
        } else {
            OP_UNFOCUS_LUA
        },
    )
}

/// Grant/revoke keyboard access for the Settings tab (same pattern as Lua).
/// Returns whether the caller must post the task now.
pub fn set_settings_input_active(state: &mut MainThreadState, active: bool) -> (post: bool)
    ensures
        request_post(
            *old(state),
            *final(state),
            if active {
                OP_FOCUS_SETTINGS
            } else {
                OP_UNFOCUS_SETTINGS
            },
            post,
        ),
{
    request_main_thread_op(
        state,
        if active {
            OP_FOCUS_SETTINGS
        } else {
            OP_UNFOCUS_SETTINGS
        },
    )
}

/// Move the Settings native box's cursor to `char_idx` (egui char index).
/// The index is kept as an `i32` (wrapping, as a cast does). Returns whether
/// the caller must post the task now.
pub fn set_settings_cursor(state: &mut MainThreadState, char_idx: usize) -> (post: bool)
    ensures
        request_post(
            MainThreadState { cursor_char_idx: char_idx as i32, ..*old(state) },
            *final(state),
            OP_SET_CURSOR,
            post,
        ),
{
    state.cursor_char_idx = char_idx as i32;
    request_main_thread_op(state, OP_SET_CURSOR)
}

/// The start of a task run: the task no longer counts as posted and the
/// pending ops are taken (and cleared).
pub fn take_pending_ops(state: &mut MainThreadState) -> (pending: u32)
    ensures
        pending == old(state).pending_ops,
        *final(state) == (MainThreadState { pending_ops: 0, task_posted: false, ..*old(state) }),
{
    state.task_posted = false;
    let pending = state.pending_ops;
    state.pending_ops = 0;
    pending
}

/// `op` as a one-element sequence when `bit` is pending, else nothing.
#[verifier::opaque]
pub open spec fn op_if(pending: u32, bit: u32, op: MainOp) -> Seq<MainOp> {
    if pending & bit != 0 {
        seq![op]
    } else {
        Seq::empty()
    }
}

/// The ops a task run performs for a pending set, in order: move, resize,
/// the unfocus ops before the focus ops (both change which input box is
/// visible), the cursor move after the focus ops, and a re-setup last.
pub open spec fn planned_ops(pending: u32) -> Seq<MainOp> {
    op_if(pending, OP_MOVE, MainOp::Move) + op_if(pending, OP_RESIZE, MainOp::Resize) + op_if(
        pending,
        OP_UNFOCUS_LUA,
        MainOp::UnfocusLua,
    ) + op_if(pending, OP_UNFOCUS_SETTINGS, MainOp::UnfocusSettings) + op_if(
        pending,
        OP_FOCUS_LUA,
        MainOp::FocusLua,
    ) + op_if(pending, OP_FOCUS_SETTINGS, MainOp::FocusSettings) + op_if(
        pending,
        OP_SET_CURSOR,
        MainOp::SetCursor,
    ) + op_if(pending, OP_REINIT, MainOp::Reinit)
}

/// Append `op` when `bit` is pending.
fn push_if(ops: &mut Vec<MainOp>, pending: u32, bit: u32, op: MainOp)
    ensures
        final(ops)@ == old(ops)@ + op_if(pending, bit, op),
{
    reveal(op_if);
    if pending & bit != 0 {
        ops.push(op);
    }
    assert(ops@ =~= old(ops)@ + op_if(pending, bit, op));
}

/// The ops a task run performs for `pending`, in the order it performs them.
pub fn main_thread_ops(pending: u32) -> (ops: Vec<MainOp>)
    ensures
        ops@ == planned_ops(pending),
{
    let mut ops: Vec<MainOp> = Vec::new();
    assert(ops@ + op_if(pending, OP_MOVE, MainOp::Move) =~= op_if(pending, OP_MOVE, MainOp::Move));
    push_if(&mut ops, pending, OP_MOVE, MainOp::Move);
    push_if(&mut ops, pending, OP_RESIZE, MainOp::Resize);
    push_if(&mut ops, pending, OP_UNFOCUS_LUA, MainOp::UnfocusLua);
    push_if(&mut ops, pending, OP_UNFOCUS_SETTINGS, MainOp::UnfocusSettings);
    push_if(&mut ops, pending, OP_FOCUS_LUA, MainOp::FocusLua);
    push_if(&mut ops, pending, OP_FOCUS_SETTINGS, MainOp::FocusSettings);
    push_if(&mut ops, pending, OP_SET_CURSOR, MainOp::SetCursor);
    push_if(&mut ops, pending, OP_REINIT, MainOp::Reinit);
    ops
}

/// The position a window move applies.
pub fn move_target(state: &MainThreadState) -> (r: (i32, i32))
    ensures
        r == (state.target_x, state.target_y),
{
    (state.target_x, state.target_y)
}

/// Record the window position once a move has been applied.
pub fn record_window_pos(state: &mut MainThreadState, x: i32, y: i32)
    ensures
        *final(state) == (MainThreadState { window_x: x, window_y: y, ..*old(state) }),
{
    state.window_x = x;
    state.window_y = y;
}

/// The size a window resize applies.
pub fn resize_target(state: &MainThreadState) -> (r: (i32, i32))
    ensures
        r == (state.target_w, state.target_h),
{
    (state.target_w, state.target_h)
}

/// The char index a cursor move applies (negative indices count as 0).
pub fn cursor_target(state: &MainThreadState) -> (r: usize)
    ensures
        r as int == if state.cursor_char_idx < 0 {
            0
        } else {
            state.cursor_char_idx as int
        },
{
    if state.cursor_char_idx < 0 {
        0
    } else {
        state.cursor_char_idx as usize
    }
}

/// The window flags while an input tab edits (`focus`: the window may take
/// focus, `FLAG_NOT_FOCUSABLE` cleared) or after it (flag set); the other
/// bits stay.
pub fn focus_flags(flags: i32, focus: bool) -> (r: i32)
    ensures
        r == if focus {
            flags & !FLAG_NOT_FOCUSABLE
        } else {
            flags | FLAG_NOT_FOCUSABLE
        },
{
    if focus {
        flags & !FLAG_NOT_FOCUSABLE
    } else {
        flags | FLAG_NOT_FOCUSABLE
    }
}

/// Focusing and then leaving an input tab sets the not-focusable bit and
/// keeps every other bit of the window flags.
pub proof fn law_focus_round_trip(flags: i32)
    ensures
        (flags | FLAG_NOT_FOCUSABLE) & !FLAG_NOT_FOCUSABLE == flags & !FLAG_NOT_FOCUSABLE,
        (flags & !FLAG_NOT_FOCUSABLE) | FLAG_NOT_FOCUSABLE == flags | FLAG_NOT_FOCUSABLE,
        (flags & !FLAG_NOT_FOCUSABLE) & FLAG_NOT_FOCUSABLE == 0,
        (flags | FLAG_NOT_FOCUSABLE) & FLAG_NOT_FOCUSABLE == FLAG_NOT_FOCUSABLE,
{
    assert((flags | 8i32) & !8i32 == flags & !8i32) by (bit_vector);
    assert((flags & !8i32) | 8i32 == flags | 8i32) by (bit_vector);
    assert((flags & !8i32) & 8i32 == 0) by (bit_vector);
    assert((flags | 8i32) & 8i32 == 8i32) by (bit_vector);
}

/// While a task is posted, further requests only add to the pending set:
/// two requests in a row post at most once, and the pending set holds both.
pub proof fn law_one_post_in_flight(
    s0: MainThreadState,
    s1: MainThreadState,
    s2: MainThreadState,
    op1: u32,
    op2: u32,
    post1: bool,
    post2: bool,
)
    requires
        request_post(s0, s1, op1, post1),
        request_post(s1, s2, op2, post2),
    ensures
        !post2,
        s2.task_posted,
        s2.pending_ops == (s0.pending_ops | op1) | op2,
{
}

/// Once a task run has taken the pending ops, the next request posts again.
pub proof fn law_request_after_take_posts(
    s0: MainThreadState,
    s1: MainThreadState,
    op: u32,
    post: bool,
)
    requires
        !s0.task_posted,
        request_post(s0, s1, op, post),
    ensures
        post,
{
}

/// The op a pending bit stands for.
pub open spec fn op_of_bit(bit: u32) -> MainOp {
    if bit == OP_MOVE {
        MainOp::Move
    } else if bit == OP_RESIZE {
        MainOp::Resize
    } else if bit == OP_UNFOCUS_LUA {
        MainOp::UnfocusLua
    } else if bit == OP_UNFOCUS_SETTINGS {
        MainOp::UnfocusSettings
    } else if bit == OP_FOCUS_LUA {
        MainOp::FocusLua
    } else if bit == OP_FOCUS_SETTINGS {
        MainOp::FocusSettings
    } else if bit == OP_SET_CURSOR {
        MainOp::SetCursor
    } else {
        MainOp::Reinit
    }
}

/// Whether `bit` is one of the eight operation bits.
pub open spec fn is_op_bit(bit: u32) -> bool {
    bit == OP_MOVE || bit == OP_RESIZE || bit == OP_UNFOCUS_LUA || bit == OP_UNFOCUS_SETTINGS
        || bit == OP_FOCUS_LUA || bit == OP_FOCUS_SETTINGS || bit == OP_SET_CURSOR || bit
        == OP_REINIT
}

/// A requested op is among the ops of the next task run: after requesting
/// `op`, the pending set that a run takes plans it.
pub proof fn law_requested_op_runs(s0: MainThreadState, s1: MainThreadState, op: u32, post: bool)
    requires
        is_op_bit(op),
        request_post(s0, s1, op, post),
    ensures
        planned_ops(s1.pending_ops).contains(op_of_bit(op)),
{
    let p = s1.pending_ops;
    let p0 = s0.pending_ops;
    assert((p0 | op) & op == op) by (bit_vector);
    let e1 = op_if(p, OP_MOVE, MainOp::Move);
    let e2 = op_if(p, OP_RESIZE, MainOp::Resize);
    let e3 = op_if(p, OP_UNFOCUS_LUA, MainOp::UnfocusLua);
    let e4 = op_if(p, OP_UNFOCUS_SETTINGS, MainOp::UnfocusSettings);
    let l1 = op_if(p, OP_FOCUS_LUA, MainOp::FocusLua);
    let l2 = op_if(p, OP_FOCUS_SETTINGS, MainOp::FocusSettings);
    let l3 = op_if(p, OP_SET_CURSOR, MainOp::SetCursor);
    let l4 = op_if(p, OP_REINIT, MainOp::Reinit);
    let s2 = e1 + e2;
    let s3 = s2 + e3;
    let s4 = s3 + e4;
    let s5 = s4 + l1;
    let s6 = s5 + l2;
    let s7 = s6 + l3;
    let all = s7 + l4;
    assert(all == planned_ops(p));
    reveal(op_if);
    let k = op_of_bit(op);
    if op == OP_MOVE {
        assert(all[0] == k);
    } else if op == OP_RESIZE {
        assert(all[e1.len() as int] == k);
    } else if op == OP_UNFOCUS_LUA {
        assert(all[s2.len() as int] == k);
    } else if op == OP_UNFOCUS_SETTINGS {
        assert(all[s3.len() as int] == k);
    } else if op == OP_FOCUS_LUA {
        assert(all[s4.len() as int] == k);
    } else if op == OP_FOCUS_SETTINGS {
        assert(all[s5.len() as int] == k);
    } else if op == OP_SET_CURSOR {
        assert(all[s6.len() as int] == k);
    } else {
        assert(all[s7.len() as int] == k);
    }
}

/// UTF-16 code units of one char (`char::len_utf16`): 1 inside the basic
/// multilingual plane, 2 above it.
pub open spec fn utf16_len(c: char) -> int {
    if (c as u32) < 0x10000 {
        1
    } else {
        2
    }
}

/// UTF-16 code units of a char sequence.
pub open spec fn utf16_units(s: Seq<char>) -> int
    decreases s.len(),
{
    if s.len() == 0 {
        0
    } else {
        utf16_units(s.drop_last()) + utf16_len(s.last())
    }
}

/// The first char index `>= j` whose prefix spans at least `u` code units,
/// or the length of `s` when no prefix does.
pub open spec fn char_index_from(s: Seq<char>, u: int, j: int) -> int
    decreases s.len() - j,
{
    if j >= s.len() || utf16_units(s.take(j)) >= u {
        j
    } else {
        char_index_from(s, u, j + 1)
    }
}

/// The char index that UTF-16 index `u` falls on: the first char index whose
/// prefix spans at least `u` code units (the length of `s` past its end).
pub open spec fn char_index_of_utf16(s: Seq<char>, u: int) -> int {
    char_index_from(s, u, 0)
}

fn char_len_utf16(c: char) -> (r: u128)
    ensures
        r == utf16_len(c),
{
    if (c as u32) < 0x10000 {
        1
    } else {
        2
    }
}

/// UTF-16 code-unit index (EditText selection) -> egui char index.
pub fn utf16_to_char_idx(s: &str, utf16_idx: usize) -> (r: usize)
    ensures
        r == char_index_of_utf16(s@, utf16_idx as int),
{
    let cs = chars_of(s);
    let n = cs.len();
    let mut seen: u128 = 0;
    let mut idx: usize = 0;
    assert(cs@.take(0) =~= Seq::<char>::empty());
    while idx < n && seen < utf16_idx as u128
        invariant
            idx <= n,
            n == cs@.len(),
            cs@ == s@,
            seen as int == utf16_units(cs@.take(idx as int)),
            seen <= 2 * idx,
            char_index_from(s@, utf16_idx as int, idx as int) == char_index_of_utf16(
                s@,
                utf16_idx as int,
            ),
        decreases n - idx,
    {
        assert(cs@.take(idx + 1).drop_last() =~= cs@.take(idx as int));
        seen = seen + char_len_utf16(cs[idx]);
        idx = idx + 1;
    }
    idx
}

/// egui char index -> UTF-16 code-unit index (for `EditText.setSelection`):
/// the code units of the first `char_idx` chars (all of them when the text is
/// shorter), as an `i32` (wrapping, as a cast does).
pub fn char_idx_to_utf16(s: &str, char_idx: usize) -> (r: i32)
    ensures
        r == (utf16_units(
            s@.take(
                if char_idx < s@.len() {
                    char_idx as int
                } else {
                    s@.len() as int
                },
            ),
        ) as i32),
{
    let cs = chars_of(s);
    let n = if char_idx < cs.len() {
        char_idx
    } else {
        cs.len()
    };
    let mut sum: u128 = 0;
    let mut i: usize = 0;
    assert(cs@.take(0) =~= Seq::<char>::empty());
    while i < n
        invariant
            i <= n <= cs@.len(),
            cs@ == s@,
            sum as int == utf16_units(cs@.take(i as int)),
            sum <= 2 * i,
        decreases n - i,
    {
        assert(cs@.take(i + 1).drop_last() =~= cs@.take(i as int));
        sum = sum + char_len_utf16(cs[i]);
        i = i + 1;
    }
    sum as i32
}

/// Prefix code-unit counts grow strictly with the prefix length.
proof fn lemma_utf16_units_strict(s: Seq<char>, j: int, k: int)
    requires
        0 <= j < k <= s.len(),
    ensures
        utf16_units(s.take(j)) < utf16_units(s.take(k)),
    decreases k,
{
    assert(s.take(k).drop_last() =~= s.take(k - 1));
    if j < k - 1 {
        lemma_utf16_units_strict(s, j, k - 1);
    }
}

proof fn lemma_char_index_from(s: Seq<char>, k: int, j: int)
    requires
        0 <= j <= k <= s.len(),
    ensures
        char_index_from(s, utf16_units(s.take(k)), j) == k,
    decreases k - j,
{
    if j < k {
        lemma_utf16_units_strict(s, j, k);
        lemma_char_index_from(s, k, j + 1);
    }
}

/// Converting a char index to UTF-16 and back gives the same char index: a
/// cursor placed in egui lands on the same char after a round trip through
/// the native input box.
pub proof fn law_utf16_round_trip(s: Seq<char>, k: int)
    requires
        0 <= k <= s.len(),
    ensures
        char_index_of_utf16(s, utf16_units(s.take(k))) == k,
{
    lemma_char_index_from(s, k, 0);
}

} // verus!

verus! {

/// The egui char index for an `EditText` selection start (a UTF-16 index;
/// negative selections count as 0).
pub fn selection_char_index(text: &str, selection_start: i32) -> (r: usize)
    ensures
        r == char_index_of_utf16(
            text@,
            if selection_start < 0 {
                0
            } else {
                selection_start as int
            },
        ),
{
    let sel: usize = if selection_start < 0 {
        0
    } else {
        selection_start as usize
    };
    utf16_to_char_idx(text, sel)
}

} // verus!

verus! {

/// Window moves are posted at most once per [`MOVE_THROTTLE_MS`]: after a
/// move request that posted at `t1`, a move request at a time `t2` less than
/// the throttle interval later does not post and does not ask for a move.
pub proof fn law_moves_are_throttled(
    s0: MainThreadState,
    s1: MainThreadState,
    s2: MainThreadState,
    x1: i32,
    y1: i32,
    x2: i32,
    y2: i32,
    t1: u64,
    t2: u64,
    post2: bool,
)
    requires
        move_post(s0, s1, x1, y1, t1, true),
        t1 <= t2 < t1 + MOVE_THROTTLE_MS,
        move_post(s1, s2, x2, y2, t2, post2),
    ensures
        !post2,
        s2.pending_ops == s1.pending_ops,
        (s2.target_x, s2.target_y) == (x2, y2),
{
}

/// A task run performs every unfocus op before any focus op, and the cursor
/// move after both: the first four planned ops (move, resize, the two
/// unfocus ops) hold no focus, cursor or re-setup op.
pub proof fn law_unfocus_runs_before_focus(pending: u32, i: int, j: int)
    requires
        0 <= i < planned_ops(pending).len(),
        0 <= j < planned_ops(pending).len(),
        planned_ops(pending)[i] == MainOp::UnfocusLua || planned_ops(pending)[i]
            == MainOp::UnfocusSettings,
        planned_ops(pending)[j] == MainOp::FocusLua || planned_ops(pending)[j]
            == MainOp::FocusSettings || planned_ops(pending)[j] == MainOp::SetCursor,
    ensures
        i < j,
{
    let p = pending;
    let e1 = op_if(p, OP_MOVE, MainOp::Move);
    let e2 = op_if(p, OP_RESIZE, MainOp::Resize);
    let e3 = op_if(p, OP_UNFOCUS_LUA, MainOp::UnfocusLua);
    let e4 = op_if(p, OP_UNFOCUS_SETTINGS, MainOp::UnfocusSettings);
    let l1 = op_if(p, OP_FOCUS_LUA, MainOp::FocusLua);
    let l2 = op_if(p, OP_FOCUS_SETTINGS, MainOp::FocusSettings);
    let l3 = op_if(p, OP_SET_CURSOR, MainOp::SetCursor);
    let l4 = op_if(p, OP_REINIT, MainOp::Reinit);
    lemma_op_if(p, OP_MOVE, MainOp::Move);
    lemma_op_if(p, OP_RESIZE, MainOp::Resize);
    lemma_op_if(p, OP_UNFOCUS_LUA, MainOp::UnfocusLua);
    lemma_op_if(p, OP_UNFOCUS_SETTINGS, MainOp::UnfocusSettings);
    lemma_op_if(p, OP_FOCUS_LUA, MainOp::FocusLua);
    lemma_op_if(p, OP_FOCUS_SETTINGS, MainOp::FocusSettings);
    lemma_op_if(p, OP_SET_CURSOR, MainOp::SetCursor);
    lemma_op_if(p, OP_REINIT, MainOp::Reinit);
    let s2 = e1 + e2;
    let s3 = s2 + e3;
    let early = s3 + e4;
    let s5 = early + l1;
    let s6 = s5 + l2;
    let s7 = s6 + l3;
    let all = s7 + l4;
    assert(all == planned_ops(p));
    // the unfocus op sits in the early part
    if i >= s7.len() {
        assert(all[i] == l4[i - s7.len()]);
    } else if i >= s6.len() {
        assert(all[i] == s7[i]);
        assert(s7[i] == l3[i - s6.len()]);
    } else if i >= s5.len() {
        assert(all[i] == s7[i] && s7[i] == s6[i]);
        assert(s6[i] == l2[i - s5.len()]);
    } else if i >= early.len() {
        assert(all[i] == s7[i] && s7[i] == s6[i] && s6[i] == s5[i]);
        assert(s5[i] == l1[i - early.len()]);
    }
    // the focus or cursor op sits in the late part
    if j < early.len() {
        assert(all[j] == s7[j] && s7[j] == s6[j] && s6[j] == s5[j] && s5[j] == early[j]);
        if j >= s3.len() {
            assert(early[j] == e4[j - s3.len()]);
        } else if j >= s2.len() {
            assert(early[j] == s3[j] && s3[j] == e3[j - s2.len()]);
        } else if j >= e1.len() {
            assert(early[j] == s3[j] && s3[j] == s2[j] && s2[j] == e2[j - e1.len()]);
        } else {
            assert(early[j] == s3[j] && s3[j] == s2[j] && s2[j] == e1[j]);
        }
    }
}

/// An optional op is that op or nothing.
proof fn lemma_op_if(pending: u32, bit: u32, op: MainOp)
    ensures
        op_if(pending, bit, op).len() <= 1,
        forall|k: int| 0 <= k < op_if(pending, bit, op).len() ==> op_if(pending, bit, op)[k] == op,
{
    reveal(op_if);
}

} // verus!

verus! {

/// A task run moves the Settings cursor only after the focus ops (the box
/// is shown there): any focus op comes before the cursor move.
pub proof fn law_cursor_runs_after_focus(pending: u32, i: int, j: int)
    requires
        0 <= i < planned_ops(pending).len(),
        0 <= j < planned_ops(pending).len(),
        planned_ops(pending)[i] == MainOp::FocusLua || planned_ops(pending)[i]
            == MainOp::FocusSettings,
        planned_ops(pending)[j] == MainOp::SetCursor,
    ensures
        i < j,
{
    let p = pending;
    let e1 = op_if(p, OP_MOVE, MainOp::Move);
    let e2 = op_if(p, OP_RESIZE, MainOp::Resize);
    let e3 = op_if(p, OP_UNFOCUS_LUA, MainOp::UnfocusLua);
    let e4 = op_if(p, OP_UNFOCUS_SETTINGS, MainOp::UnfocusSettings);
    let l1 = op_if(p, OP_FOCUS_LUA, MainOp::FocusLua);
    let l2 = op_if(p, OP_FOCUS_SETTINGS, MainOp::FocusSettings);
    let l3 = op_if(p, OP_SET_CURSOR, MainOp::SetCursor);
    let l4 = op_if(p, OP_REINIT, MainOp::Reinit);
    lemma_op_if(p, OP_MOVE, MainOp::Move);
    lemma_op_if(p, OP_RESIZE, MainOp::Resize);
    lemma_op_if(p, OP_UNFOCUS_LUA, MainOp::UnfocusLua);
    lemma_op_if(p, OP_UNFOCUS_SETTINGS, MainOp::UnfocusSettings);
    lemma_op_if(p, OP_FOCUS_LUA, MainOp::FocusLua);
    lemma_op_if(p, OP_FOCUS_SETTINGS, MainOp::FocusSettings);
    lemma_op_if(p, OP_SET_CURSOR, MainOp::SetCursor);
    lemma_op_if(p, OP_REINIT, MainOp::Reinit);
    let s2 = e1 + e2;
    let s3 = s2 + e3;
    let s4 = s3 + e4;
    let s5 = s4 + l1;
    let s6 = s5 + l2;
    let s7 = s6 + l3;
    let all = s7 + l4;
    assert(all == planned_ops(p));
    // the focus op sits before the cursor slot
    if i >= s7.len() {
        assert(all[i] == l4[i - s7.len()]);
    } else if i >= s6.len() {
        assert(all[i] == s7[i]);
        assert(s7[i] == l3[i - s6.len()]);
    } else if i < s4.len() {
        assert(all[i] == s7[i] && s7[i] == s6[i] && s6[i] == s5[i] && s5[i] == s4[i]);
        if i >= s3.len() {
            assert(s4[i] == e4[i - s3.len()]);
        } else if i >= s2.len() {
            assert(s4[i] == s3[i] && s3[i] == e3[i - s2.len()]);
        } else if i >= e1.len() {
            assert(s4[i] == s3[i] && s3[i] == s2[i] && s2[i] == e2[i - e1.len()]);
        } else {
            assert(s4[i] == s3[i] && s3[i] == s2[i] && s2[i] == e1[i]);
        }
    }
    // the cursor op sits in its own slot
    if j >= s7.len() {
        assert(all[j] == l4[j - s7.len()]);
    } else if j < s6.len() {
        assert(all[j] == s7[j] && s7[j] == s6[j]);
        if j >= s5.len() {
            assert(s6[j] == l2[j - s5.len()]);
        } else if j >= s4.len() {
            assert(s6[j] == s5[j] && s5[j] == l1[j - s4.len()]);
        } else {
            assert(s6[j] == s5[j] && s5[j] == s4[j]);
            if j >= s3.len() {
                assert(s4[j] == e4[j - s3.len()]);
            } else if j >= s2.len() {
                assert(s4[j] == s3[j] && s3[j] == e3[j - s2.len()]);
            } else if j >= e1.len() {
                assert(s4[j] == s3[j] && s3[j] == s2[j] && s2[j] == e2[j - e1.len()]);
            } else {
                assert(s4[j] == s3[j] && s3[j] == s2[j] && s2[j] == e1[j]);
            }
        }
    }
}

} // verus!

verus! {

/// The chars of `s` outside the basic multilingual plane (code point
/// `>= 0x10000`), which UTF-16 encodes as a surrogate pair.
pub open spec fn supplementary_chars(s: Seq<char>) -> Seq<char> {
    s.filter(|c: char| (c as u32) >= 0x10000)
}

/// The UTF-16 length of a text is one code unit per char plus one more for
/// each char outside the basic multilingual plane; so text made only of
/// chars below `0x10000` (ASCII, `é`, `中`, ...) has exactly as many code
/// units as chars.
pub proof fn law_utf16_units_count(s: Seq<char>)
    ensures
        utf16_units(s) == s.len() + supplementary_chars(s).len(),
        (forall|i: int| 0 <= i < s.len() ==> (s[i] as u32) < 0x10000) ==> utf16_units(s)
            == s.len(),
    decreases s.len(),
{
    reveal_with_fuel(Seq::filter, 1);
    if s.len() > 0 {
        law_utf16_units_count(s.drop_last());
        assert(supplementary_chars(s) == if (s.last() as u32) >= 0x10000 {
            supplementary_chars(s.drop_last()).push(s.last())
        } else {
            supplementary_chars(s.drop_last())
        });
        if forall|i: int| 0 <= i < s.len() ==> (s[i] as u32) < 0x10000 {
            assert(s.drop_last().len() == s.len() - 1);
            assert forall|i: int| 0 <= i < s.drop_last().len() implies (s.drop_last()[i] as u32)
                < 0x10000 by {
                assert(s.drop_last()[i] == s[i]);
            }
            assert((s[s.len() - 1] as u32) < 0x10000);
        }
    }
}

} // verus!
