//! Decisions of the input-mirroring runtime: which mouse messages the primary window's hook
//! acts on, how a pressed button is buffered into a gesture and replayed, and the bookkeeping
//! of targets, throttled log lines, the circuit breaker and dispatch results.
use vstd::prelude::*;
use crate::input_capture::MouseButton;
use crate::models::{Bounds, DispatchMode, LayoutMode};
use crate::platform::windows::Rect;
use crate::text::str_eq;

verus! {

pub const WM_MOUSEMOVE: u32 = 0x0200;
pub const WM_LBUTTONDOWN: u32 = 0x0201;
pub const WM_LBUTTONUP: u32 = 0x0202;
pub const WM_RBUTTONDOWN: u32 = 0x0204;
pub const WM_RBUTTONUP: u32 = 0x0205;
pub const WM_MBUTTONDOWN: u32 = 0x0207;
pub const WM_MBUTTONUP: u32 = 0x0208;
pub const WM_MOUSEWHEEL: u32 = 0x020A;
pub const WM_MOUSEHWHEEL: u32 = 0x020E;
pub const WM_KEYDOWN: u32 = 0x0100;
pub const WM_SYSKEYDOWN: u32 = 0x0104;
pub const VK_F12: u32 = 0x7B;
pub const MK_LBUTTON: u16 = 0x0001;
pub const MK_RBUTTON: u16 = 0x0002;
pub const MK_SHIFT: u16 = 0x0004;
pub const MK_CONTROL: u16 = 0x0008;
pub const MK_MBUTTON: u16 = 0x0010;

/// Largest distance in pixels, along each axis, that a held button may move and still count as
/// a click.
pub const CLICK_SLOP_PX: i32 = 6;

/// Most points of a gesture replayed in game mode.
pub const MAX_GAME_MODE_GESTURE_POINTS: usize = 48;

/// Longest replay in game mode before the circuit breaker opens, in milliseconds.
pub const GAME_MODE_REPLAY_WATCHDOG_MS: u128 = 1_500;

/// A point in pixels.
#[derive(Clone, Copy, Debug, PartialEq, Eq, Structural)]
pub struct Point {
    pub x: i32,
    pub y: i32,
}

/// The bit of a button in a mask of pressed buttons.
pub open spec fn spec_button_mask(button: MouseButton) -> u32 {
    match button {
        MouseButton::Left => 1,
        MouseButton::Right => 2,
        MouseButton::Middle => 4,
    }
}

/// The bit of a button in a mask of pressed buttons.
pub fn button_mask(button: MouseButton) -> (m: u32)
    ensures
        m == spec_button_mask(button),
{
    match button {
        MouseButton::Left => 1,
        MouseButton::Right => 2,
        MouseButton::Middle => 4,
    }
}

/// Mouse messages that come from the physical mouse.
pub open spec fn physical_mouse_message(message: u32) -> bool {
    message == WM_MOUSEMOVE || message == WM_LBUTTONDOWN || message == WM_LBUTTONUP
        || message == WM_RBUTTONDOWN || message == WM_RBUTTONUP || message == WM_MBUTTONDOWN
        || message == WM_MBUTTONUP || message == WM_MOUSEWHEEL || message == WM_MOUSEHWHEEL
}

/// Whether a message comes from the physical mouse.
pub fn is_physical_mouse_message(message: u32) -> (b: bool)
    ensures
        b == physical_mouse_message(message),
{
    message == WM_MOUSEMOVE || message == WM_LBUTTONDOWN || message == WM_LBUTTONUP
        || message == WM_RBUTTONDOWN || message == WM_RBUTTONUP || message == WM_MBUTTONDOWN
        || message == WM_MBUTTONUP || message == WM_MOUSEWHEEL || message == WM_MOUSEHWHEEL
}

/// Button-press messages.
pub open spec fn button_down_message(message: u32) -> bool {
    message == WM_LBUTTONDOWN || message == WM_RBUTTONDOWN || message == WM_MBUTTONDOWN
}

/// Button-release messages.
pub open spec fn button_up_message(message: u32) -> bool {
    message == WM_LBUTTONUP || message == WM_RBUTTONUP || message == WM_MBUTTONUP
}

/// Whether a message presses a button.
pub fn is_button_down_message(message: u32) -> (b: bool)
    ensures
        b == button_down_message(message),
{
    message == WM_LBUTTONDOWN || message == WM_RBUTTONDOWN || message == WM_MBUTTONDOWN
}

/// Whether a message releases a button.
pub fn is_button_up_message(message: u32) -> (b: bool)
    ensures
        b == button_up_message(message),
{
    message == WM_LBUTTONUP || message == WM_RBUTTONUP || message == WM_MBUTTONUP
}

/// Whether a message presses or releases a button.
pub fn is_click_message(message: u32) -> (b: bool)
    ensures
        b == (button_down_message(message) || button_up_message(message)),
{
    is_button_down_message(message) || is_button_up_message(message)
}

/// The release message that ends a press.
pub open spec fn spec_button_up_message_for(message: u32) -> u32 {
    if message == WM_LBUTTONDOWN {
        WM_LBUTTONUP
    } else if message == WM_RBUTTONDOWN {
        WM_RBUTTONUP
    } else if message == WM_MBUTTONDOWN {
        WM_MBUTTONUP
    } else {
        message
    }
}

/// The release message that ends a press (any other message is returned unchanged).
pub fn button_up_message_for(message: u32) -> (m: u32)
    ensures
        m == spec_button_up_message_for(message),
{
    if message == WM_LBUTTONDOWN {
        WM_LBUTTONUP
    } else if message == WM_RBUTTONDOWN {
        WM_RBUTTONUP
    } else if message == WM_MBUTTONDOWN {
        WM_MBUTTONUP
    } else {
        message
    }
}

/// Messages delivered with a synchronous send rather than a post.
pub open spec fn sent_synchronously(message: u32) -> bool {
    button_down_message(message) || button_up_message(message) || message == WM_MOUSEWHEEL
        || message == WM_MOUSEHWHEEL
}

/// Whether a mirrored message is sent synchronously (clicks and wheel) rather than posted.
pub fn should_send_mouse_synchronously(message: u32) -> (b: bool)
    ensures
        b == sent_synchronously(message),
{
    is_button_down_message(message) || is_button_up_message(message) || message == WM_MOUSEWHEEL
        || message == WM_MOUSEHWHEEL
}

/// The mask bit of the button that a press or release message concerns.
pub open spec fn spec_mouse_button_from_message(message: u32) -> Option<u32> {
    if message == WM_LBUTTONDOWN || message == WM_LBUTTONUP {
        Some(1)
    } else if message == WM_RBUTTONDOWN || message == WM_RBUTTONUP {
        Some(2)
    } else if message == WM_MBUTTONDOWN || message == WM_MBUTTONUP {
        Some(4)
    } else {
        None
    }
}

/// The mask bit of the button that a press or release message concerns.
pub fn mouse_button_from_message(message: u32) -> (r: Option<u32>)
    ensures
        r == spec_mouse_button_from_message(message),
{
    if message == WM_LBUTTONDOWN || message == WM_LBUTTONUP {
        Some(button_mask(MouseButton::Left))
    } else if message == WM_RBUTTONDOWN || message == WM_RBUTTONUP {
        Some(button_mask(MouseButton::Right))
    } else if message == WM_MBUTTONDOWN || message == WM_MBUTTONUP {
        Some(button_mask(MouseButton::Middle))
    } else {
        None
    }
}

/// Whether the primary window's hook acts on a mouse message: a move while a drag from the
/// primary is under way, or inside the primary when moves are mirrored (never outside a drag
/// in game mode); a press or wheel inside the primary; a release inside the primary or ending a
/// drag from it.
pub open spec fn processes_mouse_message(message: u32, inside_primary: bool, drag_from_primary: bool,
    sync_mouse_move: bool, game_mode: bool) -> bool {
    if message == WM_MOUSEMOVE {
        if game_mode && !drag_from_primary {
            false
        } else if drag_from_primary {
            sync_mouse_move
        } else {
            inside_primary && sync_mouse_move
        }
    } else if button_down_message(message) || message == WM_MOUSEWHEEL || message == WM_MOUSEHWHEEL {
        inside_primary
    } else if button_up_message(message) {
        inside_primary || drag_from_primary
    } else {
        false
    }
}

/// Whether the primary window's hook acts on a mouse message.
pub fn should_process_mouse_message(message: u32, inside_primary: bool, drag_from_primary: bool,
    sync_mouse_move: bool, game_mode: bool) -> (b: bool)
    ensures
        b == processes_mouse_message(message, inside_primary, drag_from_primary, sync_mouse_move, game_mode),
{
    if message == WM_MOUSEMOVE {
        if game_mode && !drag_from_primary {
            return false;
        }
        if drag_from_primary {
            sync_mouse_move
        } else {
            inside_primary && sync_mouse_move
        }
    } else if is_button_down_message(message) || message == WM_MOUSEWHEEL || message == WM_MOUSEHWHEEL {
        inside_primary
    } else if is_button_up_message(message) {
        inside_primary || drag_from_primary
    } else {
        false
    }
}

/// The high 16 bits of a value.
pub fn hiword(value: usize) -> (w: u16)
    ensures
        w == (value / 0x10000) % 0x10000,
{
    let w = ((value >> 16) & 0xffff) as u16;
    assert(((value >> 16) & 0xffff) == (value / 0x10000) % 0x10000) by (bit_vector);
    w
}

/// A point packed into a message parameter: the low 16 bits of `y` above the low 16 bits of
/// `x`.
pub fn pack_point(point: Point) -> (packed: u32)
    ensures
        packed == (point.x as u16) as int + 0x10000 * ((point.y as u16) as int),
{
    let x = point.x as u16 as u32;
    let y = point.y as u16 as u32;
    let v = (y << 16) | x;
    assert((y << 16) | x == y * 0x10000 + x) by (bit_vector)
        requires
            x < 0x10000,
            y < 0x10000,
    ;
    v
}

/// Whether a point lies in a rectangle, left and top edges included.
pub fn is_point_inside_client(point: Point, rect: Rect) -> (b: bool)
    ensures
        b == (point.x >= rect.left && point.x < rect.right && point.y >= rect.top && point.y < rect.bottom),
{
    point.x >= rect.left && point.x < rect.right && point.y >= rect.top && point.y < rect.bottom
}

/// The size of a client rectangle, at the origin.
pub fn bounds_from_client_rect(rect: Rect) -> (b: Bounds)
    requires
        crate::platform::windows::rect_size_fits(rect),
    ensures
        b == (Bounds { x: 0, y: 0, width: (rect.right - rect.left) as i32, height: (rect.bottom - rect.top) as i32 }),
{
    Bounds { x: 0, y: 0, width: rect.right - rect.left, height: rect.bottom - rect.top }
}

/// Modifier flags of a mirrored mouse message: the pressed buttons and the held Shift and
/// Control keys.
pub open spec fn modifier_state(buttons_down: u32, shift_down: bool, ctrl_down: bool) -> u16 {
    ((if buttons_down & 1 != 0 { MK_LBUTTON } else { 0u16 })
        | (if buttons_down & 2 != 0 { MK_RBUTTON } else { 0u16 })
        | (if buttons_down & 4 != 0 { MK_MBUTTON } else { 0u16 })
        | (if shift_down { MK_SHIFT } else { 0u16 })
        | (if ctrl_down { MK_CONTROL } else { 0u16 }))
}

/// Modifier flags of a mirrored mouse message.
pub fn current_mouse_modifier_state(buttons_down: u32, shift_down: bool, ctrl_down: bool) -> (k: u16)
    ensures
        k == modifier_state(buttons_down, shift_down, ctrl_down),
{
    let left = if (buttons_down & button_mask(MouseButton::Left)) != 0 { MK_LBUTTON } else { 0u16 };
    let right = if (buttons_down & button_mask(MouseButton::Right)) != 0 { MK_RBUTTON } else { 0u16 };
    let middle = if (buttons_down & button_mask(MouseButton::Middle)) != 0 { MK_MBUTTON } else { 0u16 };
    let shift = if shift_down { MK_SHIFT } else { 0u16 };
    let ctrl = if ctrl_down { MK_CONTROL } else { 0u16 };
    left | right | middle | shift | ctrl
}


/// A button pressed over the primary window and the points at which it was pressed and
/// released; `P` is the type of a point in the primary's client area as a fraction of its size.
pub struct BufferedPointerGesture<P> {
    pub button_mask: u32,
    pub down_message: u32,
    pub up_message: u32,
    pub points: Vec<P>,
}

/// Abstract value of a `BufferedPointerGesture`.
pub struct GestureView<P> {
    pub button_mask: u32,
    pub down_message: u32,
    pub up_message: u32,
    pub points: Seq<P>,
}

impl<P> View for BufferedPointerGesture<P> {
    type V = GestureView<P>;

    open spec fn view(&self) -> GestureView<P> {
        GestureView {
            button_mask: self.button_mask,
            down_message: self.down_message,
            up_message: self.up_message,
            points: self.points@,
        }
    }
}

/// The pressed buttons, the drag under way from the primary window and the gesture buffered
/// for replay.
pub struct PointerState<P> {
    pub buttons_down: u32,
    pub drag_from_primary: bool,
    pub drag_origin: Option<Point>,
    pub buffered_gesture: Option<BufferedPointerGesture<P>>,
}

/// Abstract value of a `PointerState`.
pub struct PointerView<P> {
    pub buttons_down: u32,
    pub drag_from_primary: bool,
    pub drag_origin: Option<Point>,
    pub gesture: Option<GestureView<P>>,
}

impl<P> View for PointerState<P> {
    type V = PointerView<P>;

    open spec fn view(&self) -> PointerView<P> {
        PointerView {
            buttons_down: self.buttons_down,
            drag_from_primary: self.drag_from_primary,
            drag_origin: self.drag_origin,
            gesture: match &self.buffered_gesture {
                Some(g) => Some(g@),
                None => None,
            },
        }
    }
}

impl<P> PointerState<P> {
    /// No button pressed, no drag, no gesture.
    pub fn new() -> (s: Self)
        ensures
            s@ == (PointerView::<P> { buttons_down: 0, drag_from_primary: false, drag_origin: None, gesture: None }),
    {
        PointerState { buttons_down: 0, drag_from_primary: false, drag_origin: None, buffered_gesture: None }
    }
}

/// What the mouse hook observed for one low-level mouse message.
pub struct MouseHookEvent<P> {
    pub message: u32,
    /// The message was injected rather than produced by the mouse.
    pub injected: bool,
    /// The top-level window under the pointer is the primary window.
    pub inside_primary: bool,
    /// The pointer in the primary's client coordinates and the primary's client rectangle;
    /// `None` when they could not be read.
    pub client: Option<(Point, Rect)>,
    /// The pointer as a fraction of the primary's client size; `None` when that size is empty.
    pub normalized: Option<P>,
    /// The pointer is far enough from the last point of the buffered gesture to be kept.
    pub point_is_new: bool,
}

/// Abstract value of a `MouseHookEvent`.
pub struct MouseHookEventView<P> {
    pub message: u32,
    pub injected: bool,
    pub inside_primary: bool,
    pub client: Option<(Point, Rect)>,
    pub normalized: Option<P>,
    pub point_is_new: bool,
}

impl<P> View for MouseHookEvent<P> {
    type V = MouseHookEventView<P>;

    open spec fn view(&self) -> MouseHookEventView<P> {
        MouseHookEventView {
            message: self.message,
            injected: self.injected,
            inside_primary: self.inside_primary,
            client: self.client,
            normalized: self.normalized,
            point_is_new: self.point_is_new,
        }
    }
}

/// The session state that the mouse hook reads.
#[derive(Clone, Copy, Debug, PartialEq, Eq, Structural)]
pub struct MouseHookContext {
    /// At least one target window is live.
    pub has_targets: bool,
    pub circuit_breaker_open: bool,
    /// The primary window still exists.
    pub primary_valid: bool,
    pub sync_mouse_move: bool,
    pub game_mode: bool,
    pub layout_mode: LayoutMode,
}

/// What the runtime does after the hook saw a message.
pub enum MouseHookAction<P> {
    Ignore,
    /// Note that mirroring is paused because the primary window is gone.
    LogPrimaryInvalid,
    /// Mirror the wheel message to the targets.
    HandleWheel,
    /// Replay the gesture to the targets (replay is now marked in progress); afterwards raise
    /// the primary window when asked.
    ReplayGesture { gesture: BufferedPointerGesture<P>, bring_primary_to_front: bool },
    /// Raise the primary window above the stacked targets.
    BringPrimaryToFront,
}

/// Abstract value of a `MouseHookAction`.
pub enum ActionView<P> {
    Ignore,
    LogPrimaryInvalid,
    HandleWheel,
    ReplayGesture(GestureView<P>, bool),
    BringPrimaryToFront,
}

impl<P> View for MouseHookAction<P> {
    type V = ActionView<P>;

    open spec fn view(&self) -> ActionView<P> {
        match self {
            MouseHookAction::Ignore => ActionView::Ignore,
            MouseHookAction::LogPrimaryInvalid => ActionView::LogPrimaryInvalid,
            MouseHookAction::HandleWheel => ActionView::HandleWheel,
            MouseHookAction::ReplayGesture { gesture, bring_primary_to_front } =>
                ActionView::ReplayGesture(gesture@, *bring_primary_to_front),
            MouseHookAction::BringPrimaryToFront => ActionView::BringPrimaryToFront,
        }
    }
}

/// The hook's answer: whether the message is withheld from other applications, and the
/// action to take.
pub struct MouseHookDecision<P> {
    pub swallow: bool,
    pub action: MouseHookAction<P>,
}

/// Outcome of one hook step: the pointer state, whether a replay is in progress, whether the
/// message is withheld, and the action.
pub struct StepView<P> {
    pub state: PointerView<P>,
    pub replay_in_progress: bool,
    pub swallow: bool,
    pub action: ActionView<P>,
}

/// A step that changes nothing and withholds nothing.
pub open spec fn no_step<P>(s: PointerView<P>, replay: bool, action: ActionView<P>) -> StepView<P> {
    StepView { state: s, replay_in_progress: replay, swallow: false, action }
}

/// After a release ends a click, a stack layout raises the primary window again.
pub open spec fn raise_after_click<P>(ctx: MouseHookContext) -> ActionView<P> {
    if ctx.layout_mode == LayoutMode::Stack {
        ActionView::BringPrimaryToFront
    } else {
        ActionView::Ignore
    }
}

/// The mouse hook's decision for one message.
///
/// Injected messages and sessions without targets are passed on. While a replay is running,
/// physical mouse input is withheld. An open circuit breaker passes everything on; a vanished
/// primary window is reported. Wheel messages go to the wheel handler. Otherwise only the
/// messages that `processes_mouse_message` accepts, with a readable client position inside the
/// primary (or ending a drag from it) and a non-empty client area, are handled: a press starts
/// a drag and buffers a gesture at the press point; a release of the buffered button ends the
/// gesture (keeping the release point when it is new) and replays it; any release clears the
/// buffered gesture and, when no button remains pressed, the drag.
pub open spec fn hook_step<P>(s: PointerView<P>, replay: bool, ctx: MouseHookContext, ev: MouseHookEventView<P>)
    -> StepView<P> {
    let msg = ev.message;
    if ev.injected || !ctx.has_targets {
        no_step(s, replay, ActionView::Ignore)
    } else if replay {
        StepView { state: s, replay_in_progress: replay, swallow: physical_mouse_message(msg), action: ActionView::Ignore }
    } else if ctx.circuit_breaker_open {
        no_step(s, replay, ActionView::Ignore)
    } else if !ctx.primary_valid {
        no_step(s, replay, ActionView::LogPrimaryInvalid)
    } else if msg == WM_MOUSEWHEEL || msg == WM_MOUSEHWHEEL {
        no_step(s, replay, ActionView::HandleWheel)
    } else if !processes_mouse_message(msg, ev.inside_primary, s.drag_from_primary, ctx.sync_mouse_move, ctx.game_mode) {
        no_step(s, replay, ActionView::Ignore)
    } else if ev.client is None {
        no_step(s, replay, ActionView::Ignore)
    } else if !s.drag_from_primary && !ev.inside_primary && !button_up_message(msg) {
        no_step(s, replay, ActionView::Ignore)
    } else if !s.drag_from_primary && !inside_rect(client_point(ev), client_rect(ev)) && !button_up_message(msg) {
        no_step(s, replay, ActionView::Ignore)
    } else if ev.normalized is None {
        no_step(s, replay, ActionView::Ignore)
    } else if spec_mouse_button_from_message(msg) is Some && button_down_message(msg) {
        let b = spec_mouse_button_from_message(msg)->0;
        no_step(PointerView {
            buttons_down: s.buttons_down | b,
            drag_from_primary: true,
            drag_origin: Some(client_point(ev)),
            gesture: Some(GestureView {
                button_mask: b,
                down_message: msg,
                up_message: spec_button_up_message_for(msg),
                points: seq![ev.normalized->0],
            }),
        }, replay, ActionView::Ignore)
    } else if spec_mouse_button_from_message(msg) is Some && button_up_message(msg) {
        let b = spec_mouse_button_from_message(msg)->0;
        let buttons = s.buttons_down & !b;
        let after = PointerView {
            buttons_down: buttons,
            drag_from_primary: if buttons == 0 { false } else { s.drag_from_primary },
            drag_origin: if buttons == 0 { None } else { s.drag_origin },
            gesture: None,
        };
        match s.gesture {
            Some(g) => if g.button_mask == b {
                let kept = if ev.point_is_new { g.points.push(ev.normalized->0) } else { g.points };
                StepView {
                    state: after,
                    replay_in_progress: true,
                    swallow: false,
                    action: ActionView::ReplayGesture(GestureView { points: kept, ..g },
                        ctx.layout_mode == LayoutMode::Stack),
                }
            } else {
                no_step(after, replay, raise_after_click(ctx))
            },
            None => no_step(after, replay, raise_after_click(ctx)),
        }
    } else {
        no_step(s, replay, ActionView::Ignore)
    }
}

/// The client position that an event observed.
pub open spec fn client_point<P>(ev: MouseHookEventView<P>) -> Point {
    let (p, r) = ev.client->0;
    p
}

/// The client rectangle that an event observed.
pub open spec fn client_rect<P>(ev: MouseHookEventView<P>) -> Rect {
    let (p, r) = ev.client->0;
    r
}

/// A point lies in a rectangle, left and top edges included.
pub open spec fn inside_rect(p: Point, r: Rect) -> bool {
    p.x >= r.left && p.x < r.right && p.y >= r.top && p.y < r.bottom
}

/// One step of the primary window's mouse hook; see `hook_step`.
pub fn handle_mouse<P>(state: &mut PointerState<P>, replay_in_progress: &mut bool, ctx: &MouseHookContext,
    event: MouseHookEvent<P>) -> (d: MouseHookDecision<P>)
    ensures
        ({
            let step = hook_step(old(state)@, *old(replay_in_progress), *ctx, event@);
            &&& final(state)@ == step.state
            &&& *final(replay_in_progress) == step.replay_in_progress
            &&& d.swallow == step.swallow
            &&& d.action@ == step.action
        }),
{
    let message = event.message;
    if event.injected || !ctx.has_targets {
        return MouseHookDecision { swallow: false, action: MouseHookAction::Ignore };
    }
    if *replay_in_progress {
        return MouseHookDecision { swallow: is_physical_mouse_message(message), action: MouseHookAction::Ignore };
    }
    if ctx.circuit_breaker_open {
        return MouseHookDecision { swallow: false, action: MouseHookAction::Ignore };
    }
    if !ctx.primary_valid {
        return MouseHookDecision { swallow: false, action: MouseHookAction::LogPrimaryInvalid };
    }
    if message == WM_MOUSEWHEEL || message == WM_MOUSEHWHEEL {
        return MouseHookDecision { swallow: false, action: MouseHookAction::HandleWheel };
    }
    let started_drag = state.drag_from_primary;
    if !should_process_mouse_message(message, event.inside_primary, started_drag, ctx.sync_mouse_move, ctx.game_mode) {
        return MouseHookDecision { swallow: false, action: MouseHookAction::Ignore };
    }
    let (client_point, client_rect) = match event.client {
        Some(c) => c,
        None => return MouseHookDecision { swallow: false, action: MouseHookAction::Ignore },
    };
    if !started_drag && !event.inside_primary && !is_button_up_message(message) {
        return MouseHookDecision { swallow: false, action: MouseHookAction::Ignore };
    }
    if !started_drag && !is_point_inside_client(client_point, client_rect) && !is_button_up_message(message) {
        return MouseHookDecision { swallow: false, action: MouseHookAction::Ignore };
    }
    let normalized_point = match event.normalized {
        Some(p) => p,
        None => return MouseHookDecision { swallow: false, action: MouseHookAction::Ignore },
    };
    match mouse_button_from_message(message) {
        Some(button) => {
            if is_button_down_message(message) {
                state.buttons_down = state.buttons_down | button;
                state.drag_from_primary = true;
                state.drag_origin = Some(client_point);
                let mut points: Vec<P> = Vec::new();
                points.push(normalized_point);
                assert(points@ == seq![normalized_point]);
                state.buffered_gesture = Some(BufferedPointerGesture {
                    button_mask: button,
                    down_message: message,
                    up_message: button_up_message_for(message),
                    points,
                });
                return MouseHookDecision { swallow: false, action: MouseHookAction::Ignore };
            }
            if is_button_up_message(message) {
                let mut taken: Option<BufferedPointerGesture<P>> = None;
                std::mem::swap(&mut taken, &mut state.buffered_gesture);
                state.buttons_down = state.buttons_down & !button;
                if state.buttons_down == 0 {
                    state.drag_from_primary = false;
                    state.drag_origin = None;
                }
                match taken {
                    Some(mut gesture) => {
                        if gesture.button_mask == button {
                            if event.point_is_new {
                                gesture.points.push(normalized_point);
                            }
                            *replay_in_progress = true;
                            return MouseHookDecision {
                                swallow: false,
                                action: MouseHookAction::ReplayGesture {
                                    gesture,
                                    bring_primary_to_front: ctx.layout_mode == LayoutMode::Stack,
                                },
                            };
                        }
                    },
                    None => {},
                }
                if ctx.layout_mode == LayoutMode::Stack {
                    return MouseHookDecision { swallow: false, action: MouseHookAction::BringPrimaryToFront };
                }
                return MouseHookDecision { swallow: false, action: MouseHookAction::Ignore };
            }
            MouseHookDecision { swallow: false, action: MouseHookAction::Ignore }
        },
        None => MouseHookDecision { swallow: false, action: MouseHookAction::Ignore },
    }
}


/// A gesture as the hook buffers it: a press message of one button, the matching release, and
/// at least one point.
pub open spec fn gesture_wf<P>(g: GestureView<P>) -> bool {
    &&& button_down_message(g.down_message)
    &&& spec_mouse_button_from_message(g.down_message) == Some(g.button_mask)
    &&& g.up_message == spec_button_up_message_for(g.down_message)
    &&& g.points.len() >= 1
}

/// The pointer state the hook maintains: only the three button bits are used; a drag is under
/// way exactly while a button is pressed, and it has an origin; a buffered gesture belongs to a
/// pressed button.
pub open spec fn pointer_wf<P>(s: PointerView<P>) -> bool {
    &&& s.buttons_down & !7u32 == 0
    &&& s.drag_from_primary == (s.buttons_down != 0)
    &&& (s.drag_origin is Some) == s.drag_from_primary
    &&& (s.gesture matches Some(g) ==> gesture_wf(g) && s.buttons_down & g.button_mask != 0)
}

/// Every hook step keeps the pointer state well formed, and a replayed gesture is well formed
/// and is replayed on the release of its own button.
pub proof fn lemma_hook_step_wf<P>(s: PointerView<P>, replay: bool, ctx: MouseHookContext, ev: MouseHookEventView<P>)
    requires
        pointer_wf(s),
    ensures
        pointer_wf(hook_step(s, replay, ctx, ev).state),
        hook_step(s, replay, ctx, ev).action matches ActionView::ReplayGesture(g, _) ==> gesture_wf(g)
            && ev.message == g.up_message && button_up_message(ev.message),
{
    let msg = ev.message;
    let step = hook_step(s, replay, ctx, ev);
    if let Some(b) = spec_mouse_button_from_message(msg) {
        assert(b == 1 || b == 2 || b == 4);
        let bd = s.buttons_down;
        assert((bd | b) & !7u32 == 0 && (bd | b) != 0 && (bd | b) & b != 0) by (bit_vector)
            requires
                bd & !7u32 == 0,
                b == 1u32 || b == 2u32 || b == 4u32,
        ;
        assert((bd & !b) & !7u32 == 0 && ((bd & !b) != 0 ==> bd != 0)) by (bit_vector)
            requires
                bd & !7u32 == 0,
        ;
    }
}

/// Injected messages change nothing and are never withheld.
pub proof fn lemma_injected_ignored<P>(s: PointerView<P>, replay: bool, ctx: MouseHookContext, ev: MouseHookEventView<P>)
    requires
        ev.injected,
    ensures
        hook_step(s, replay, ctx, ev) == no_step(s, replay, ActionView::<P>::Ignore),
{
}

/// While a replay is in progress the hook changes nothing and withholds exactly the physical
/// mouse messages (that are not injected), so the user's mouse cannot disturb the replay.
pub proof fn lemma_replay_blocks_mouse<P>(s: PointerView<P>, ctx: MouseHookContext, ev: MouseHookEventView<P>)
    requires
        !ev.injected,
        ctx.has_targets,
    ensures
        hook_step(s, true, ctx, ev).state == s,
        hook_step(s, true, ctx, ev).replay_in_progress,
        hook_step(s, true, ctx, ev).swallow == physical_mouse_message(ev.message),
        hook_step(s, true, ctx, ev).action == ActionView::<P>::Ignore,
{
}

/// When no replay is in progress (as after `finish_replay`), the hook withholds no message.
pub proof fn lemma_idle_hook_withholds_nothing<P>(s: PointerView<P>, ctx: MouseHookContext,
    ev: MouseHookEventView<P>)
    ensures
        !hook_step(s, false, ctx, ev).swallow,
{
}

/// Once the circuit breaker is open (and no replay runs), the hook changes nothing, withholds
/// nothing and mirrors nothing.
pub proof fn lemma_open_breaker_stops_mirroring<P>(s: PointerView<P>, ctx: MouseHookContext,
    ev: MouseHookEventView<P>)
    requires
        ctx.circuit_breaker_open,
    ensures
        hook_step(s, false, ctx, ev) == no_step(s, false, ActionView::<P>::Ignore),
{
}

/// Only a press inside the primary window starts a gesture, and only the release of the
/// buffered button replays it.
pub proof fn lemma_gestures_start_and_end_on_buttons<P>(s: PointerView<P>, replay: bool, ctx: MouseHookContext,
    ev: MouseHookEventView<P>)
    ensures
        hook_step(s, replay, ctx, ev).state.gesture is Some && hook_step(s, replay, ctx, ev).state.gesture
            != s.gesture ==> button_down_message(ev.message) && ev.inside_primary,
        hook_step(s, replay, ctx, ev).action is ReplayGesture ==> (s.gesture matches Some(g)
            && spec_mouse_button_from_message(ev.message) == Some(g.button_mask) && button_up_message(ev.message)),
{
}

/// Away from the primary window, with no drag from it under way, a press never starts a
/// gesture and nothing is replayed.
pub proof fn lemma_outside_primary_inert<P>(s: PointerView<P>, replay: bool, ctx: MouseHookContext,
    ev: MouseHookEventView<P>)
    requires
        !ev.inside_primary,
        !s.drag_from_primary,
        !button_up_message(ev.message),
    ensures
        hook_step(s, replay, ctx, ev).state == s,
        !(hook_step(s, replay, ctx, ev).action is ReplayGesture),
{
}


/// Whether a held button has moved at most `CLICK_SLOP_PX` from where it was pressed.
pub open spec fn click_hold(buttons_down: u32, origin: Option<Point>, current: Point) -> bool {
    buttons_down != 0 && origin is Some && {
        let o = origin->0;
        -CLICK_SLOP_PX <= current.x - o.x <= CLICK_SLOP_PX && -CLICK_SLOP_PX <= current.y - o.y <= CLICK_SLOP_PX
    }
}

/// Whether a held button has moved at most `CLICK_SLOP_PX` from where it was pressed.
pub fn should_treat_as_click_hold<P>(pointer_state: &PointerState<P>, current_point: Point) -> (b: bool)
    requires
        pointer_state.drag_origin matches Some(o) ==> i32::MIN < current_point.x - o.x <= i32::MAX
            && i32::MIN < current_point.y - o.y <= i32::MAX,
    ensures
        b == click_hold(pointer_state.buttons_down, pointer_state.drag_origin, current_point),
{
    if pointer_state.buttons_down == 0 {
        return false;
    }
    let origin = match pointer_state.drag_origin {
        Some(o) => o,
        None => return false,
    };
    let dx = current_point.x - origin.x;
    let dy = current_point.y - origin.y;
    let adx = if dx < 0 { -dx } else { dx };
    let ady = if dy < 0 { -dy } else { dy };
    adx <= CLICK_SLOP_PX && ady <= CLICK_SLOP_PX
}

/// `max(lo, min(v, hi))` for `lo <= hi`.
pub open spec fn clamp_index(v: int, lo: int, hi: int) -> int {
    if v < lo {
        lo
    } else if v > hi {
        hi
    } else {
        v
    }
}

/// The positions of the points kept when a gesture of `len` points is thinned to at most
/// `max_points`: all of them when they fit (or `max_points < 2`); else the first, the last,
/// and `max_points - 2` positions spread evenly between, before equal neighbours are merged.
pub open spec fn downsample_plan(len: nat, max_points: nat) -> Seq<int> {
    if len <= max_points || max_points < 2 {
        Seq::new(len, |i: int| i)
    } else {
        let last = len - 1;
        let interior = max_points - 2;
        seq![0int] + Seq::new(interior as nat, |k: int| clamp_index(((k + 1) * last) / (interior + 1) as int, 1, last - 1))
            + seq![last as int]
    }
}

/// The positions of the points kept when a gesture is thinned; see `downsample_plan`.
pub fn downsample_indices(len: usize, max_points: usize) -> (plan: Vec<usize>)
    requires
        len > max_points >= 2 ==> (max_points - 2) * (len - 1) <= usize::MAX,
    ensures
        plan@.len() == downsample_plan(len as nat, max_points as nat).len(),
        forall|i: int| 0 <= i < plan@.len() ==> plan@[i] as int == #[trigger] downsample_plan(len as nat,
            max_points as nat)[i],
{
    let mut plan: Vec<usize> = Vec::new();
    if len <= max_points || max_points < 2 {
        let mut i: usize = 0;
        while i < len
            invariant
                i <= len,
                plan@.len() == i,
                forall|j: int| 0 <= j < i ==> plan@[j] == j,
            decreases len - i,
        {
            plan.push(i);
            i = i + 1;
        }
        return plan;
    }
    let last_index = len - 1;
    let interior_slots = max_points - 2;
    let ghost spec_plan = downsample_plan(len as nat, max_points as nat);
    plan.push(0);
    let mut slot: usize = 1;
    while slot <= interior_slots
        invariant
            len > max_points >= 2,
            last_index == len - 1,
            interior_slots == max_points - 2,
            interior_slots * last_index <= usize::MAX,
            spec_plan == downsample_plan(len as nat, max_points as nat),
            1 <= slot <= interior_slots + 1,
            plan@.len() == slot,
            forall|j: int| 0 <= j < slot ==> plan@[j] as int == #[trigger] spec_plan[j],
        decreases interior_slots + 1 - slot,
    {
        proof {
            assert(slot * last_index <= interior_slots * last_index) by (nonlinear_arith)
                requires
                    slot <= interior_slots,
            ;
        }
        let index = (slot * last_index) / (interior_slots + 1);
        let hi = last_index - 1;
        let clamped = if index < 1 { 1 } else if index > hi { hi } else { index };
        plan.push(clamped);
        slot = slot + 1;
    }
    plan.push(last_index);
    plan
}

/// What the runtime sends for one point of a replayed gesture: a message and the position of
/// its point in the gesture.
#[derive(Clone, Copy, Debug, PartialEq, Eq, Structural)]
pub struct ReplayStep {
    pub message: u32,
    pub point_index: usize,
}

/// The messages replaying a gesture of `count` points through injected input: the press at
/// the first point, a move to each point between, the release at the last point.
pub open spec fn replay_steps(down_message: u32, up_message: u32, count: nat) -> Seq<ReplayStep> {
    if count == 0 {
        Seq::empty()
    } else {
        seq![ReplayStep { message: down_message, point_index: 0 }]
            + Seq::new((if count >= 2 { count - 2 } else { 0 }) as nat, |k: int| ReplayStep { message: WM_MOUSEMOVE, point_index: (k + 1) as usize })
            + seq![ReplayStep { message: up_message, point_index: (count - 1) as usize }]
    }
}

/// The messages replaying a gesture of `count` points; see `replay_steps`.
pub fn gesture_replay_steps(down_message: u32, up_message: u32, count: usize) -> (steps: Vec<ReplayStep>)
    ensures
        steps@ == replay_steps(down_message, up_message, count as nat),
{
    let mut steps: Vec<ReplayStep> = Vec::new();
    if count == 0 {
        assert(steps@ =~= replay_steps(down_message, up_message, count as nat));
        return steps;
    }
    steps.push(ReplayStep { message: down_message, point_index: 0 });
    let mut i: usize = 1;
    while i + 1 < count
        invariant
            count >= 1,
            1 <= i <= if count >= 2 { count - 1 } else { 1 },
            steps@ == seq![ReplayStep { message: down_message, point_index: 0 }]
                + Seq::new((i - 1) as nat, |k: int| ReplayStep { message: WM_MOUSEMOVE, point_index: (k + 1) as usize }),
        decreases count - i,
    {
        steps.push(ReplayStep { message: WM_MOUSEMOVE, point_index: i });
        i = i + 1;
        assert(steps@ =~= seq![ReplayStep { message: down_message, point_index: 0 }]
            + Seq::new((i - 1) as nat, |k: int| ReplayStep { message: WM_MOUSEMOVE, point_index: (k + 1) as usize }));
    }
    steps.push(ReplayStep { message: up_message, point_index: count - 1 });
    assert(steps@ =~= replay_steps(down_message, up_message, count as nat));
    steps
}


/// Pause after a synchronous pointer move that precedes a click, in milliseconds.
pub const PRE_CLICK_MOVE_SETTLE_MS: u64 = 8;
/// Pause after a click or wheel turn delivered to one target, in milliseconds.
pub const INTER_TARGET_CLICK_SETTLE_MS: u64 = 4;
/// Pause after focusing a target before replaying to it, in milliseconds.
pub const FOREGROUND_TARGET_SETTLE_MS: u64 = 70;
/// Pause after focusing a target in game mode, in milliseconds.
pub const GAME_MODE_FOREGROUND_TARGET_SETTLE_MS: u64 = 130;
/// Pause after the primary window received a click before it is replayed, in milliseconds.
pub const PRIMARY_CLICK_SETTLE_MS: u64 = 45;

/// The input sync that is running: its session and the thread that runs its hooks.
#[derive(Debug)]
pub struct RunningSync {
    pub session_id: String,
    pub thread_id: u32,
}

/// Takes the running sync out of `running` when it belongs to `session_id` (or to any session
/// when none is given), so that its thread can be stopped; returns it, or nothing when no
/// such sync runs.
pub fn stop_input_sync(running: &mut Option<RunningSync>, session_id: Option<&str>) -> (stopped: Option<
    RunningSync,
>)
    ensures
        match *old(running) {
            Some(r) => if session_id matches Some(id) && id@ != r.session_id@ {
                stopped is None && *final(running) == *old(running)
            } else {
                stopped == Some(r) && *final(running) is None
            },
            None => stopped is None && *final(running) is None,
        },
{
    let matches = match (&*running, session_id) {
        (Some(r), Some(id)) => str_eq(r.session_id.as_str(), id),
        (Some(_), None) => true,
        (None, _) => false,
    };
    if matches {
        running.take()
    } else {
        None
    }
}

/// Whether a key event is the emergency stop: a physical (not injected) press of F12, as a
/// key or system key, while Ctrl and Shift are held.
pub open spec fn emergency_stop(message: u32, injected: bool, vk_code: u32, ctrl_down: bool, shift_down: bool) -> bool {
    !injected && (message == WM_KEYDOWN || message == WM_SYSKEYDOWN) && vk_code == VK_F12 && ctrl_down && shift_down
}

/// Whether a key event is the emergency stop; see `emergency_stop`. The hook withholds such
/// a key and opens the circuit breaker.
pub fn emergency_stop_requested(message: u32, injected: bool, vk_code: u32, ctrl_down: bool, shift_down: bool) -> (b: bool)
    ensures
        b == emergency_stop(message, injected, vk_code, ctrl_down, shift_down),
{
    if injected {
        return false;
    }
    if !(message == WM_KEYDOWN || message == WM_SYSKEYDOWN) {
        return false;
    }
    if vk_code != VK_F12 {
        return false;
    }
    ctrl_down && shift_down
}

/// Whether a wheel turn over the primary window is mirrored: the circuit breaker is closed,
/// the pointer is over the primary window, its client position could be read and lies in the
/// client area, and it could be expressed relative to that area.
pub open spec fn wheel_mirrored(circuit_breaker_open: bool, over_primary: bool, client: Option<(Point, Rect)>,
    normalized: bool) -> bool {
    &&& !circuit_breaker_open
    &&& over_primary
    &&& client matches Some((p, r)) && inside_rect(p, r)
    &&& normalized
}

/// Whether a wheel turn over the primary window is mirrored; see `wheel_mirrored`.
pub fn should_mirror_wheel(circuit_breaker_open: bool, over_primary: bool, client: Option<(Point, Rect)>,
    normalized: bool) -> (b: bool)
    ensures
        b == wheel_mirrored(circuit_breaker_open, over_primary, client, normalized),
{
    if circuit_breaker_open || !over_primary {
        return false;
    }
    match client {
        None => false,
        Some((p, r)) => is_point_inside_client(p, r) && normalized,
    }
}

/// Whether a replay of `elapsed_ms` milliseconds trips the game mode watchdog.
pub fn watchdog_tripped(game_mode: bool, elapsed_ms: u128) -> (b: bool)
    ensures
        b == (game_mode && elapsed_ms > GAME_MODE_REPLAY_WATCHDOG_MS),
{
    game_mode && elapsed_ms > GAME_MODE_REPLAY_WATCHDOG_MS
}

/// The pause after focusing a window before replaying to it.
pub fn focus_settle_ms(game_mode: bool) -> (ms: u64)
    ensures
        ms == if game_mode {
            GAME_MODE_FOREGROUND_TARGET_SETTLE_MS
        } else {
            FOREGROUND_TARGET_SETTLE_MS
        },
{
    if game_mode {
        GAME_MODE_FOREGROUND_TARGET_SETTLE_MS
    } else {
        FOREGROUND_TARGET_SETTLE_MS
    }
}

/// Why a message did not reach a target.
#[derive(Clone, Copy, Debug, PartialEq, Eq, Structural)]
pub enum DeliveryFailure {
    TargetGone,
    ClientRectUnreadable,
    PreClickMove,
    ClientToScreen,
    WheelMessage,
    MouseMessage,
    NoGesturePoints,
}

/// The reason text of each delivery failure.
pub open spec fn delivery_failure_text(f: DeliveryFailure) -> Seq<char> {
    match f {
        DeliveryFailure::TargetGone => "target window is no longer valid"@,
        DeliveryFailure::ClientRectUnreadable => "failed to read target client rect"@,
        DeliveryFailure::PreClickMove => "pre-click mouse move dispatch returned failure"@,
        DeliveryFailure::ClientToScreen => "ClientToScreen failed for wheel dispatch"@,
        DeliveryFailure::WheelMessage => "wheel message dispatch returned failure"@,
        DeliveryFailure::MouseMessage => "mouse message dispatch returned failure"@,
        DeliveryFailure::NoGesturePoints => "buffered gesture had no points"@,
    }
}

impl DeliveryFailure {
    /// The reason text of this failure.
    pub fn reason(&self) -> (r: &'static str)
        ensures
            r@ == delivery_failure_text(*self),
    {
        match self {
            DeliveryFailure::TargetGone => "target window is no longer valid",
            DeliveryFailure::ClientRectUnreadable => "failed to read target client rect",
            DeliveryFailure::PreClickMove => "pre-click mouse move dispatch returned failure",
            DeliveryFailure::ClientToScreen => "ClientToScreen failed for wheel dispatch",
            DeliveryFailure::WheelMessage => "wheel message dispatch returned failure",
            DeliveryFailure::MouseMessage => "mouse message dispatch returned failure",
            DeliveryFailure::NoGesturePoints => "buffered gesture had no points",
        }
    }
}

/// How a mouse message is delivered to a target through window messages.
#[derive(Clone, Copy, Debug, PartialEq, Eq, Structural)]
pub struct WindowMessagePlan {
    /// A synchronous `WM_MOUSEMOVE` at the delivery point with this `wParam` goes first,
    /// followed by a pause of `PRE_CLICK_MOVE_SETTLE_MS`; its failure is `PreClickMove`.
    pub pre_move_wparam: Option<usize>,
    /// The `lParam` carries the screen position of the target point (a wheel turn), whose
    /// conversion failing is `ClientToScreen`; otherwise it carries the delivery point.
    pub screen_position: bool,
    pub wparam: usize,
    /// The message is sent and waited for rather than posted.
    pub synchronous: bool,
    /// Pause after the message, in milliseconds.
    pub settle_ms: u64,
    /// The failure when the message is not delivered.
    pub failure: DeliveryFailure,
}

/// Whether a message is a wheel turn.
pub open spec fn wheel_message(message: u32) -> bool {
    message == WM_MOUSEWHEEL || message == WM_MOUSEHWHEEL
}

/// The delivery of `message` through window messages, with `key_state` the modifier flags and
/// `mouse_data` the hook's mouse data (whose high word is a wheel turn's delta): a pointer move
/// goes first unless the message is one; a wheel turn carries the delta in the high word of
/// `wParam` and the flags in the low word, any other message the flags; clicks and wheel turns
/// are sent and waited for, and followed by a pause of `INTER_TARGET_CLICK_SETTLE_MS`.
pub open spec fn window_message_plan(message: u32, key_state: u16, mouse_data: u32) -> WindowMessagePlan {
    let wheel = wheel_message(message);
    WindowMessagePlan {
        pre_move_wparam: if message != WM_MOUSEMOVE { Some(key_state as usize) } else { None },
        screen_position: wheel,
        wparam: if wheel { ((mouse_data / 65536) * 65536 + key_state) as usize } else { key_state as usize },
        synchronous: sent_synchronously(message),
        settle_ms: if wheel || button_down_message(message) || button_up_message(message) {
            INTER_TARGET_CLICK_SETTLE_MS
        } else {
            0
        },
        failure: if wheel { DeliveryFailure::WheelMessage } else { DeliveryFailure::MouseMessage },
    }
}

/// The delivery of `message` through window messages; see `window_message_plan`.
pub fn plan_window_message(message: u32, key_state: u16, mouse_data: u32) -> (plan: WindowMessagePlan)
    ensures
        plan == window_message_plan(message, key_state, mouse_data),
{
    let wheel = message == WM_MOUSEWHEEL || message == WM_MOUSEHWHEEL;
    let wparam: usize = if wheel {
        let high = mouse_data / 65536;
        assert(high * 65536 <= 0xFFFF_0000) by (nonlinear_arith)
            requires
                high == mouse_data / 65536,
        ;
        (high * 65536 + key_state as u32) as usize
    } else {
        key_state as usize
    };
    WindowMessagePlan {
        pre_move_wparam: if message != WM_MOUSEMOVE { Some(key_state as usize) } else { None },
        screen_position: wheel,
        wparam,
        synchronous: should_send_mouse_synchronously(message),
        settle_ms: if wheel || is_click_message(message) { INTER_TARGET_CLICK_SETTLE_MS } else { 0 },
        failure: if wheel { DeliveryFailure::WheelMessage } else { DeliveryFailure::MouseMessage },
    }
}


/// How a mouse message reaches one target.
#[derive(Clone, Copy, Debug, PartialEq, Eq, Structural)]
pub enum MouseDelivery {
    /// The target is skipped for this reason, and taken out of mirroring.
    Skip(DeliveryFailure),
    /// Injected input (see `GameInputDispatcher`).
    Inject,
    /// Window messages as planned, under the dispatch mode that chose them.
    Messages(DispatchMode, WindowMessagePlan),
}

/// The dispatch mode of a target: the configured one, or the detected one under `Auto`.
pub open spec fn effective_mode(configured: DispatchMode, detected: Option<DispatchMode>) -> DispatchMode {
    if configured == DispatchMode::Auto {
        detected->0
    } else {
        configured
    }
}

/// How `message` reaches a target: a target that is gone, or whose client area cannot be
/// read, is skipped; injected input when the target's mode is `SendInput`; window messages
/// otherwise.
pub open spec fn mouse_delivery(target_alive: bool, client_rect_readable: bool, configured: DispatchMode,
    detected: Option<DispatchMode>, message: u32, key_state: u16, mouse_data: u32) -> MouseDelivery {
    if !target_alive {
        MouseDelivery::Skip(DeliveryFailure::TargetGone)
    } else if !client_rect_readable {
        MouseDelivery::Skip(DeliveryFailure::ClientRectUnreadable)
    } else if effective_mode(configured, detected) == DispatchMode::SendInput {
        MouseDelivery::Inject
    } else {
        MouseDelivery::Messages(effective_mode(configured, detected), window_message_plan(message, key_state, mouse_data))
    }
}

/// How `message` reaches a target; see `mouse_delivery`. `detected` is the mode detected
/// from the target's window, needed only under `Auto` for a live target whose client area was
/// read.
pub fn plan_mouse_delivery(target_alive: bool, client_rect_readable: bool, configured: DispatchMode,
    detected: Option<DispatchMode>, message: u32, key_state: u16, mouse_data: u32) -> (d: MouseDelivery)
    requires
        target_alive && client_rect_readable && configured == DispatchMode::Auto ==> detected is Some,
    ensures
        d == mouse_delivery(target_alive, client_rect_readable, configured, detected, message, key_state, mouse_data),
{
    if !target_alive {
        return MouseDelivery::Skip(DeliveryFailure::TargetGone);
    }
    if !client_rect_readable {
        return MouseDelivery::Skip(DeliveryFailure::ClientRectUnreadable);
    }
    let mode = match configured {
        DispatchMode::Auto => match detected {
            Some(m) => m,
            None => DispatchMode::WindowMessage,
        },
        other => other,
    };
    match mode {
        DispatchMode::SendInput => MouseDelivery::Inject,
        _ => MouseDelivery::Messages(mode, plan_window_message(message, key_state, mouse_data)),
    }
}


/// A target that is gone is skipped as gone, and a live target whose client area cannot be
/// read is skipped as unreadable, whatever the modes.
pub proof fn lemma_unreachable_targets_are_skipped(target_alive: bool, client_rect_readable: bool,
    configured: DispatchMode, detected: Option<DispatchMode>, message: u32, key_state: u16, mouse_data: u32)
    ensures
        !target_alive ==> mouse_delivery(target_alive, client_rect_readable, configured, detected, message,
            key_state, mouse_data) == MouseDelivery::Skip(DeliveryFailure::TargetGone),
        target_alive && !client_rect_readable ==> mouse_delivery(target_alive, client_rect_readable,
            configured, detected, message, key_state, mouse_data) == MouseDelivery::Skip(
            DeliveryFailure::ClientRectUnreadable),
{
}

/// For a live target whose client area was read, the mode used is the configured one, or
/// under `Auto` the detected one: injected input for `SendInput`, window messages (under
/// `WindowMessage`) for `WindowMessage`.
pub proof fn lemma_delivery_follows_the_mode(configured: DispatchMode, detected: Option<DispatchMode>,
    message: u32, key_state: u16, mouse_data: u32)
    ensures
        configured == DispatchMode::SendInput ==> mouse_delivery(true, true, configured, detected, message,
            key_state, mouse_data) == MouseDelivery::Inject,
        configured == DispatchMode::WindowMessage ==> (mouse_delivery(true, true, configured, detected, message,
            key_state, mouse_data) matches MouseDelivery::Messages(m, _) && m == DispatchMode::WindowMessage),
        configured == DispatchMode::Auto && detected == Some(DispatchMode::SendInput) ==> mouse_delivery(true,
            true, configured, detected, message, key_state, mouse_data) == MouseDelivery::Inject,
        configured == DispatchMode::Auto && detected == Some(DispatchMode::WindowMessage) ==> (mouse_delivery(
            true, true, configured, detected, message, key_state, mouse_data) matches MouseDelivery::Messages(
            m, _) && m == DispatchMode::WindowMessage),
{
}

/// How a buffered gesture is replayed to one target.
#[derive(Debug)]
pub enum GestureReplay {
    /// The target is skipped for this reason (and, when it is gone, taken out of mirroring).
    Skip(DeliveryFailure),
    /// In game mode, the whole gesture at once through injected input (see
    /// `GameInputDispatcher::gesture_actions`), once the target's client area is read.
    Whole,
    /// After focusing the target, each step through injected input, stopping at the first
    /// that fails.
    Steps(Vec<ReplayStep>),
}

/// Abstract value of a `GestureReplay`.
pub enum GestureReplayView {
    Skip(DeliveryFailure),
    Whole,
    Steps(Seq<ReplayStep>),
}

impl View for GestureReplay {
    type V = GestureReplayView;

    open spec fn view(&self) -> GestureReplayView {
        match self {
            GestureReplay::Skip(f) => GestureReplayView::Skip(*f),
            GestureReplay::Whole => GestureReplayView::Whole,
            GestureReplay::Steps(s) => GestureReplayView::Steps(s@),
        }
    }
}

/// How a gesture of `point_count` points (after thinning) is replayed to a target: a gesture
/// without points, or a target that is gone, is skipped; game mode replays it whole;
/// otherwise step by step.
pub open spec fn gesture_replay(down_message: u32, up_message: u32, point_count: nat, target_alive: bool,
    game_mode: bool) -> GestureReplayView {
    if point_count == 0 {
        GestureReplayView::Skip(DeliveryFailure::NoGesturePoints)
    } else if !target_alive {
        GestureReplayView::Skip(DeliveryFailure::TargetGone)
    } else if game_mode {
        GestureReplayView::Whole
    } else {
        GestureReplayView::Steps(replay_steps(down_message, up_message, point_count))
    }
}

/// How a gesture is replayed to a target; see `gesture_replay`.
pub fn plan_gesture_replay(down_message: u32, up_message: u32, point_count: usize, target_alive: bool,
    game_mode: bool) -> (r: GestureReplay)
    ensures
        r@ == gesture_replay(down_message, up_message, point_count as nat, target_alive, game_mode),
{
    if point_count == 0 {
        GestureReplay::Skip(DeliveryFailure::NoGesturePoints)
    } else if !target_alive {
        GestureReplay::Skip(DeliveryFailure::TargetGone)
    } else if game_mode {
        GestureReplay::Whole
    } else {
        GestureReplay::Steps(gesture_replay_steps(down_message, up_message, point_count))
    }
}


/// The top-level window of the window `hwnd` under the pointer, given its root ancestor
/// `ancestor`: none for a null window, the window itself when it has no ancestor.
pub fn root_window(hwnd: usize, ancestor: usize) -> (root: usize)
    ensures
        root == if hwnd == 0 {
            0
        } else if ancestor == 0 {
            hwnd
        } else {
            ancestor
        },
{
    if hwnd == 0 {
        0
    } else if ancestor == 0 {
        hwnd
    } else {
        ancestor
    }
}

/// Where the search for the window that receives a message goes next from `current`, given
/// the child window `child` under the point: into that child, or nowhere when there is none
/// (null) or the point hits `current` itself.
pub fn deeper_child(current: usize, child: usize) -> (next: Option<usize>)
    ensures
        next == if child == 0 || child == current {
            None::<usize>
        } else {
            Some(child)
        },
{
    if child == 0 || child == current {
        None
    } else {
        Some(child)
    }
}

} // verus!
