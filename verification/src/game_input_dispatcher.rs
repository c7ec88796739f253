//! Delivery of mirrored mouse input as injected system input, for games and DirectX/OpenGL
//! surfaces that ignore window messages: the input records, the absolute coordinates over the
//! virtual screen, the focus retries and the timed order of a replayed gesture.
use vstd::prelude::*;
use crate::layout_engine::div_trunc;
use crate::platform::windows::sync_runtime::{
    button_down_message, hiword, is_button_down_message, WM_LBUTTONDOWN, WM_LBUTTONUP, WM_MBUTTONDOWN,
    WM_MBUTTONUP, WM_MOUSEHWHEEL, WM_MOUSEWHEEL, WM_RBUTTONDOWN, WM_RBUTTONUP,
};
use crate::text::{decimal_digits, push_decimal};

verus! {

/// Pause after focusing a target, in milliseconds.
pub const DEFAULT_FOCUS_SETTLE_MS: u64 = 65;
/// How long a pressed button is held, in milliseconds.
pub const DEFAULT_CLICK_HOLD_MS: u64 = 28;
/// Pause after focusing a target in game mode, in milliseconds.
pub const GAME_MODE_FOCUS_SETTLE_MS: u64 = 120;
/// How long a pressed button is held in game mode, in milliseconds.
pub const GAME_MODE_CLICK_HOLD_MS: u64 = 52;
/// Pause after each pointer move of a replayed gesture, in milliseconds.
pub const GAME_MODE_MOVE_SETTLE_MS: u64 = 22;
/// Pause after the release that ends a replayed gesture, in milliseconds.
pub const GAME_MODE_POST_CLICK_SETTLE_MS: u64 = 36;
/// Pause between the two attempts to focus a target, in milliseconds.
pub const FOCUS_RETRY_PAUSE_MS: u64 = 24;

pub const MOUSEEVENTF_MOVE: u32 = 0x0001;
pub const MOUSEEVENTF_LEFTDOWN: u32 = 0x0002;
pub const MOUSEEVENTF_LEFTUP: u32 = 0x0004;
pub const MOUSEEVENTF_RIGHTDOWN: u32 = 0x0008;
pub const MOUSEEVENTF_RIGHTUP: u32 = 0x0010;
pub const MOUSEEVENTF_MIDDLEDOWN: u32 = 0x0020;
pub const MOUSEEVENTF_MIDDLEUP: u32 = 0x0040;
pub const MOUSEEVENTF_WHEEL: u32 = 0x0800;
pub const MOUSEEVENTF_HWHEEL: u32 = 0x1000;
pub const MOUSEEVENTF_VIRTUALDESK: u32 = 0x4000;
pub const MOUSEEVENTF_ABSOLUTE: u32 = 0x8000;

/// Injects mirrored mouse input into a target window.
pub struct GameInputDispatcher;

/// One injected mouse input: a position in absolute virtual-screen units, the wheel data and
/// the event flags.
#[derive(Clone, Copy, Debug, PartialEq, Eq, Structural)]
pub struct MouseInput {
    pub dx: i32,
    pub dy: i32,
    pub mouse_data: u32,
    pub flags: u32,
}

/// Why injected input could not be delivered.
#[derive(Clone, Copy, Debug, PartialEq, Eq, Structural)]
pub enum GameInputError {
    NoGesturePoints,
    /// A gesture was to press or release with a message that is not a button message.
    UnsupportedButton(u32),
    InvalidVirtualScreen,
    ClientToScreen,
    FocusFailed,
    /// The system accepted only `sent` of `total` inputs.
    SendIncomplete { sent: u32, total: usize },
}

/// The text shown for each error.
pub open spec fn game_input_error_text(e: GameInputError) -> Seq<char> {
    match e {
        GameInputError::NoGesturePoints => "Buffered gesture had no points"@,
        GameInputError::UnsupportedButton(m) => "Unsupported button message for gesture replay: "@
            + decimal_digits(m as nat),
        GameInputError::InvalidVirtualScreen => "Invalid virtual screen dimensions"@,
        GameInputError::ClientToScreen => "Failed to convert client to screen coordinates"@,
        GameInputError::FocusFailed => "Failed to focus target window before SendInput replay"@,
        GameInputError::SendIncomplete { sent, total } => "Failed to send all input events: sent "@
            + decimal_digits(sent as nat) + "/"@ + decimal_digits(total as nat),
    }
}

impl GameInputError {
    /// The text shown for this error.
    pub fn message(&self) -> (m: String)
        ensures
            m@ == game_input_error_text(*self),
    {
        match self {
            GameInputError::NoGesturePoints => "Buffered gesture had no points".to_owned(),
            GameInputError::UnsupportedButton(message) => {
                let mut m = "Unsupported button message for gesture replay: ".to_owned();
                push_decimal(&mut m, *message as u128);
                m
            },
            GameInputError::InvalidVirtualScreen => "Invalid virtual screen dimensions".to_owned(),
            GameInputError::ClientToScreen => "Failed to convert client to screen coordinates".to_owned(),
            GameInputError::FocusFailed => "Failed to focus target window before SendInput replay".to_owned(),
            GameInputError::SendIncomplete { sent, total } => {
                let mut m = "Failed to send all input events: sent ".to_owned();
                push_decimal(&mut m, *sent as u128);
                m.append("/");
                push_decimal(&mut m, *total as u128);
                m
            },
        }
    }
}

/// What to do after an attempt to focus a target.
#[derive(Clone, Copy, Debug, PartialEq, Eq, Structural)]
pub enum FocusStep {
    Focused,
    /// Pause this long, then try again.
    Retry(u64),
    Failed,
}

/// The input flag that presses or releases the button of a button message.
pub open spec fn button_flag_of(message: u32) -> Option<u32> {
    if message == WM_LBUTTONDOWN {
        Some(MOUSEEVENTF_LEFTDOWN)
    } else if message == WM_LBUTTONUP {
        Some(MOUSEEVENTF_LEFTUP)
    } else if message == WM_RBUTTONDOWN {
        Some(MOUSEEVENTF_RIGHTDOWN)
    } else if message == WM_RBUTTONUP {
        Some(MOUSEEVENTF_RIGHTUP)
    } else if message == WM_MBUTTONDOWN {
        Some(MOUSEEVENTF_MIDDLEDOWN)
    } else if message == WM_MBUTTONUP {
        Some(MOUSEEVENTF_MIDDLEUP)
    } else {
        None
    }
}

/// Integer division rounded toward zero, for any divisor but zero.
pub open spec fn quotient_toward_zero(a: int, b: int) -> int {
    if b > 0 {
        div_trunc(a, b)
    } else {
        -div_trunc(a, -b)
    }
}

/// The coordinates of a screen point in absolute units, where the virtual screen spans
/// 65536 units on each axis: `(p - origin) * 65536 / size`, rounded toward zero.
pub open spec fn absolute_coordinate(p: i32, origin: i32, size: i32) -> int {
    quotient_toward_zero((p - origin) * 65536, size as int)
}

/// What the absolute conversion of a point needs to stay within `i32`.
pub open spec fn absolute_fits(p: i32, origin: i32) -> bool {
    i32::MIN < (p - origin) * 65536 <= i32::MAX
}

/// The wheel data of an injected wheel input: the signed high word of the hook's mouse data,
/// as a 32-bit value.
pub open spec fn wheel_delta_data(mouse_data: u32) -> u32 {
    let high = mouse_data / 65536;
    if high >= 0x8000 {
        (high + 0xFFFF_0000) as u32
    } else {
        high
    }
}

/// A pointer move to absolute coordinates.
pub open spec fn move_input(x: i32, y: i32) -> MouseInput {
    MouseInput { dx: x, dy: y, mouse_data: 0, flags: MOUSEEVENTF_MOVE | MOUSEEVENTF_ABSOLUTE | MOUSEEVENTF_VIRTUALDESK }
}

/// A button press or release at absolute coordinates.
pub open spec fn button_input(flag: u32, x: i32, y: i32) -> MouseInput {
    MouseInput { dx: x, dy: y, mouse_data: 0, flags: flag | MOUSEEVENTF_ABSOLUTE | MOUSEEVENTF_VIRTUALDESK }
}

/// A wheel turn at absolute coordinates.
pub open spec fn wheel_input(data: u32, x: i32, y: i32, horizontal: bool) -> MouseInput {
    MouseInput {
        dx: x,
        dy: y,
        mouse_data: data,
        flags: (if horizontal { MOUSEEVENTF_HWHEEL } else { MOUSEEVENTF_WHEEL }) | MOUSEEVENTF_ABSOLUTE
            | MOUSEEVENTF_VIRTUALDESK,
    }
}

/// The inputs injected for a mouse message at absolute coordinates: a move there, then the
/// press, release or wheel turn that the message stands for (nothing more for other messages).
pub open spec fn mouse_message_inputs(message: u32, mouse_data: u32, x: i32, y: i32) -> Seq<MouseInput> {
    let first = seq![move_input(x, y)];
    if button_flag_of(message) is Some {
        first.push(button_input(button_flag_of(message)->0, x, y))
    } else if message == WM_MOUSEWHEEL {
        first.push(wheel_input(wheel_delta_data(mouse_data), x, y, false))
    } else if message == WM_MOUSEHWHEEL {
        first.push(wheel_input(wheel_delta_data(mouse_data), x, y, true))
    } else {
        first
    }
}

/// One step of a gesture replayed through injected input.
#[derive(Clone, Copy, Debug, PartialEq, Eq, Structural)]
pub enum GestureAction {
    /// Focus the target (see `GameInputDispatcher::after_focus_attempt`).
    Focus,
    /// Move the pointer to the point at this position of the gesture.
    MoveTo(usize),
    /// Press or release with this input flag at the point at this position.
    Button(u32, usize),
    Pause(u64),
    /// The replay ends with this error.
    Fail(GameInputError),
}

/// The pause that holds a pressed button.
pub open spec fn click_hold(game_mode: bool) -> u64 {
    if game_mode {
        GAME_MODE_CLICK_HOLD_MS
    } else {
        DEFAULT_CLICK_HOLD_MS
    }
}

/// A move to the point at position `i`, then the settling pause.
pub open spec fn move_and_settle(i: usize) -> Seq<GestureAction> {
    seq![GestureAction::MoveTo(i), GestureAction::Pause(GAME_MODE_MOVE_SETTLE_MS)]
}

/// The moves to the points between the first and the last of `count` points.
pub open spec fn interior_moves(count: nat) -> Seq<GestureAction>
    decreases count,
{
    if count <= 2 {
        Seq::empty()
    } else {
        interior_moves((count - 1) as nat) + move_and_settle((count - 2) as usize)
    }
}

/// The steps that replay a gesture of `count` points pressed with `down_message` and released
/// with `up_message`: focus the target; move to the first point and press there, holding the
/// button; move through the points between; move to the last point and release there, then
/// pause. A gesture without points fails at once; a press or release that is not a button
/// message fails when it is due.
pub open spec fn gesture_plan(count: nat, down_message: u32, up_message: u32, game_mode: bool) -> Seq<GestureAction> {
    if count == 0 {
        seq![GestureAction::Fail(GameInputError::NoGesturePoints)]
    } else {
        let start = seq![GestureAction::Focus] + move_and_settle(0);
        match button_flag_of(down_message) {
            None => start.push(GestureAction::Fail(GameInputError::UnsupportedButton(down_message))),
            Some(down) => {
                let pressed = start + seq![GestureAction::Button(down, 0), GestureAction::Pause(click_hold(game_mode))]
                    + interior_moves(count) + move_and_settle((count - 1) as usize);
                match button_flag_of(up_message) {
                    None => pressed.push(GestureAction::Fail(GameInputError::UnsupportedButton(up_message))),
                    Some(up) => pressed + seq![
                        GestureAction::Button(up, (count - 1) as usize),
                        GestureAction::Pause(GAME_MODE_POST_CLICK_SETTLE_MS),
                    ],
                }
            },
        }
    }
}

impl GameInputDispatcher {
    /// How long a pressed button is held.
    pub fn click_hold_ms(game_mode: bool) -> (ms: u64)
        ensures
            ms == click_hold(game_mode),
    {
        if game_mode {
            GAME_MODE_CLICK_HOLD_MS
        } else {
            DEFAULT_CLICK_HOLD_MS
        }
    }

    /// The pause after focusing a target.
    pub fn focus_settle_ms(game_mode: bool) -> (ms: u64)
        ensures
            ms == if game_mode {
                GAME_MODE_FOCUS_SETTLE_MS
            } else {
                DEFAULT_FOCUS_SETTLE_MS
            },
    {
        if game_mode {
            GAME_MODE_FOCUS_SETTLE_MS
        } else {
            DEFAULT_FOCUS_SETTLE_MS
        }
    }

    /// What follows an attempt (counted from zero) to bring the target to the foreground,
    /// after the focus pause: done when it is in front; otherwise one more attempt after a
    /// short pause, and failure after the second.
    pub fn after_focus_attempt(attempt: u32, focused: bool) -> (step: FocusStep)
        ensures
            step == if focused {
                FocusStep::Focused
            } else if attempt == 0 {
                FocusStep::Retry(FOCUS_RETRY_PAUSE_MS)
            } else {
                FocusStep::Failed
            },
    {
        if focused {
            FocusStep::Focused
        } else if attempt == 0 {
            FocusStep::Retry(FOCUS_RETRY_PAUSE_MS)
        } else {
            FocusStep::Failed
        }
    }

    /// The input flag of a button message, or the error of a gesture that presses or releases
    /// with another message.
    pub fn button_flag(message: u32) -> (r: Result<u32, GameInputError>)
        ensures
            match button_flag_of(message) {
                Some(f) => r == Ok::<u32, GameInputError>(f),
                None => r == Err::<u32, GameInputError>(GameInputError::UnsupportedButton(message)),
            },
    {
        if message == WM_LBUTTONDOWN {
            Ok(MOUSEEVENTF_LEFTDOWN)
        } else if message == WM_LBUTTONUP {
            Ok(MOUSEEVENTF_LEFTUP)
        } else if message == WM_RBUTTONDOWN {
            Ok(MOUSEEVENTF_RIGHTDOWN)
        } else if message == WM_RBUTTONUP {
            Ok(MOUSEEVENTF_RIGHTUP)
        } else if message == WM_MBUTTONDOWN {
            Ok(MOUSEEVENTF_MIDDLEDOWN)
        } else if message == WM_MBUTTONUP {
            Ok(MOUSEEVENTF_MIDDLEUP)
        } else {
            Err(GameInputError::UnsupportedButton(message))
        }
    }

    /// The absolute coordinates of screen point `(x, y)` on a virtual screen whose top-left
    /// corner is `(left, top)` and whose size is `width` by `height`; see
    /// `absolute_coordinate`. A screen of zero width or height is an error.
    pub fn screen_to_absolute(x: i32, y: i32, left: i32, top: i32, width: i32, height: i32) -> (r: Result<
        (i32, i32),
        GameInputError,
    >)
        requires
            width != 0 && height != 0 ==> absolute_fits(x, left) && absolute_fits(y, top),
        ensures
            width == 0 || height == 0 ==> r == Err::<(i32, i32), GameInputError>(GameInputError::InvalidVirtualScreen),
            width != 0 && height != 0 ==> (r matches Ok((ax, ay)) && ax == absolute_coordinate(x, left, width)
                && ay == absolute_coordinate(y, top, height)),
    {
        if width == 0 || height == 0 {
            return Err(GameInputError::InvalidVirtualScreen);
        }
        let ax = quotient_i32((x - left) * 65536, width);
        let ay = quotient_i32((y - top) * 65536, height);
        Ok((ax, ay))
    }

    /// The inputs injected for a mouse message at absolute coordinates; see
    /// `mouse_message_inputs`.
    pub fn mouse_inputs(message: u32, mouse_data: u32, x: i32, y: i32) -> (inputs: Vec<MouseInput>)
        ensures
            inputs@ == mouse_message_inputs(message, mouse_data, x, y),
    {
        let mut inputs: Vec<MouseInput> = Vec::new();
        inputs.push(MouseInput { dx: x, dy: y, mouse_data: 0, flags: MOUSEEVENTF_MOVE | MOUSEEVENTF_ABSOLUTE | MOUSEEVENTF_VIRTUALDESK });
        match Self::button_flag(message) {
            Ok(flag) => {
                inputs.push(MouseInput { dx: x, dy: y, mouse_data: 0, flags: flag | MOUSEEVENTF_ABSOLUTE | MOUSEEVENTF_VIRTUALDESK });
            },
            Err(_) => {
                if message == WM_MOUSEWHEEL || message == WM_MOUSEHWHEEL {
                    let data = wheel_data(mouse_data);
                    let wheel_flag = if message == WM_MOUSEHWHEEL { MOUSEEVENTF_HWHEEL } else { MOUSEEVENTF_WHEEL };
                    inputs.push(MouseInput { dx: x, dy: y, mouse_data: data, flags: wheel_flag | MOUSEEVENTF_ABSOLUTE | MOUSEEVENTF_VIRTUALDESK });
                }
            },
        }
        assert(inputs@ =~= mouse_message_inputs(message, mouse_data, x, y));
        inputs
    }

    /// The pause after injecting a mouse message: a press is held, nothing else waits.
    pub fn pause_after_message(message: u32, game_mode: bool) -> (ms: u64)
        ensures
            ms == if button_down_message(message) {
                click_hold(game_mode)
            } else {
                0
            },
    {
        if is_button_down_message(message) {
            Self::click_hold_ms(game_mode)
        } else {
            0
        }
    }

    /// The error of a send that the system accepted only in part, or nothing when all `total`
    /// inputs were accepted.
    pub fn check_sent(sent: u32, total: usize) -> (r: Result<(), GameInputError>)
        ensures
            sent as int == total as int <==> r is Ok,
            r is Err ==> r == Err::<(), GameInputError>(GameInputError::SendIncomplete { sent, total }),
    {
        if sent as usize == total {
            Ok(())
        } else {
            Err(GameInputError::SendIncomplete { sent, total })
        }
    }

    /// The steps that replay a gesture of `count` points; see `gesture_plan`.
    pub fn gesture_actions(count: usize, down_message: u32, up_message: u32, game_mode: bool) -> (actions: Vec<
        GestureAction,
    >)
        ensures
            actions@ == gesture_plan(count as nat, down_message, up_message, game_mode),
    {
        let mut actions: Vec<GestureAction> = Vec::new();
        if count == 0 {
            actions.push(GestureAction::Fail(GameInputError::NoGesturePoints));
            assert(actions@ =~= gesture_plan(count as nat, down_message, up_message, game_mode));
            return actions;
        }
        actions.push(GestureAction::Focus);
        actions.push(GestureAction::MoveTo(0));
        actions.push(GestureAction::Pause(GAME_MODE_MOVE_SETTLE_MS));
        let ghost start = actions@;
        assert(start =~= seq![GestureAction::Focus] + move_and_settle(0));
        let down = match Self::button_flag(down_message) {
            Ok(f) => f,
            Err(e) => {
                actions.push(GestureAction::Fail(e));
                return actions;
            },
        };
        actions.push(GestureAction::Button(down, 0));
        actions.push(GestureAction::Pause(Self::click_hold_ms(game_mode)));
        let ghost pressed_head = actions@;
        assert(pressed_head =~= start + seq![GestureAction::Button(down, 0), GestureAction::Pause(click_hold(game_mode))]);
        let mut i: usize = 1;
        while i + 1 < count
            invariant
                count >= 1,
                1 <= i,
                i <= if count >= 2 { count - 1 } else { 1 },
                actions@ == pressed_head + interior_moves((i + 1) as nat),
            decreases count - i,
        {
            actions.push(GestureAction::MoveTo(i));
            actions.push(GestureAction::Pause(GAME_MODE_MOVE_SETTLE_MS));
            assert(interior_moves((i + 2) as nat) == interior_moves((i + 1) as nat) + move_and_settle(i));
            assert(actions@ =~= pressed_head + interior_moves((i + 2) as nat));
            i = i + 1;
        }
        assert(i + 1 == count || count == 1);
        assert(interior_moves((i + 1) as nat) == interior_moves(count as nat)) by {
            if count == 1 {
                assert(interior_moves(2) == Seq::<GestureAction>::empty());
                assert(interior_moves(1) == Seq::<GestureAction>::empty());
            }
        }
        actions.push(GestureAction::MoveTo(count - 1));
        actions.push(GestureAction::Pause(GAME_MODE_MOVE_SETTLE_MS));
        let ghost pressed = actions@;
        assert(pressed =~= pressed_head + interior_moves(count as nat) + move_and_settle((count - 1) as usize));
        match Self::button_flag(up_message) {
            Ok(up) => {
                actions.push(GestureAction::Button(up, count - 1));
                actions.push(GestureAction::Pause(GAME_MODE_POST_CLICK_SETTLE_MS));
                assert(actions@ =~= gesture_plan(count as nat, down_message, up_message, game_mode));
            },
            Err(e) => {
                actions.push(GestureAction::Fail(e));
                assert(actions@ =~= gesture_plan(count as nat, down_message, up_message, game_mode));
            },
        }
        actions
    }
}

/// `quotient_toward_zero(a, b)` on machine integers.
fn quotient_i32(a: i32, b: i32) -> (q: i32)
    requires
        b != 0,
        a > i32::MIN,
    ensures
        q == quotient_toward_zero(a as int, b as int),
{
    let na: u32 = if a >= 0 { a as u32 } else { (-a) as u32 };
    let nb: u32 = if b >= 0 { b as u32 } else if b == i32::MIN { 0x8000_0000u32 } else { (-b) as u32 };
    let m = na / nb;
    assert(m <= na);
    let q: i32 = if (a >= 0) == (b > 0) { m as i32 } else { -(m as i32) };
    q
}

/// `wheel_delta_data` on machine integers.
fn wheel_data(mouse_data: u32) -> (d: u32)
    ensures
        d == wheel_delta_data(mouse_data),
{
    let high = hiword(mouse_data as usize) as u32;
    assert(high == mouse_data / 65536);
    if high >= 0x8000 {
        high + 0xFFFF_0000
    } else {
        high
    }
}

} // verus!
