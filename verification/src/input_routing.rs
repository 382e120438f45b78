//! Where physical input goes.

use vstd::prelude::*;

use crate::state::{State, StateView};

verus! {

/// What an input device reports.
#[derive(Clone, Copy, Debug, PartialEq, Eq, Structural)]
pub enum DeviceInput {
    Key { keycode: u32, pressed: bool },
    PointerMotion,
    PointerMotionAbsolute,
    PointerButton,
    PointerAxis,
    TouchDown,
    TouchMotion,
    TouchUp,
    TouchFrame,
    TouchCancel,
    /// Swipes, pinches and holds.
    Gesture,
    /// Anything that the compositor does not pass on.
    Unhandled,
}

/// What becomes of input.
#[derive(Clone, Copy, Debug, PartialEq, Eq, Structural)]
pub enum InputRoute {
    /// Nothing.
    Ignore,
    /// The key goes through the keyboard; `kept` tells whether no client sees it.
    Keyboard { kept: bool },
    /// It goes to the focused surface.
    Deliver,
    /// It goes to the focused surface, with its position within the output.
    DeliverWithin { width: i32, height: i32 },
}

/// Input that Steam counts: everything from users but gestures and marks between touches.
pub open spec fn is_counted(input: DeviceInput) -> bool {
    match input {
        DeviceInput::Key { .. } => true,
        DeviceInput::PointerMotion => true,
        DeviceInput::PointerMotionAbsolute => true,
        DeviceInput::PointerButton => true,
        DeviceInput::PointerAxis => true,
        DeviceInput::TouchDown => true,
        DeviceInput::TouchMotion => true,
        DeviceInput::TouchUp => true,
        _ => false,
    }
}

/// Input that has a position on the output.
pub open spec fn is_positioned(input: DeviceInput) -> bool {
    match input {
        DeviceInput::PointerMotion => true,
        DeviceInput::PointerMotionAbsolute => true,
        DeviceInput::TouchDown => true,
        DeviceInput::TouchMotion => true,
        _ => false,
    }
}

/// Input before which focus is looked at again.
pub open spec fn is_motion(input: DeviceInput) -> bool {
    match input {
        DeviceInput::PointerMotion => true,
        DeviceInput::PointerMotionAbsolute => true,
        _ => false,
    }
}

/// The state once input is counted and its key is looked at.
pub open spec fn counted(state: StateView, input: DeviceInput) -> StateView {
    let counted = if is_counted(input) {
        state.with_input_counted()
    } else {
        state
    };
    match input {
        DeviceInput::Key { keycode, pressed } => StateView {
            vt: counted.vt.after_key(keycode, pressed),
            ..counted
        },
        _ => counted,
    }
}

/// What becomes of input.
pub open spec fn route_of(state: StateView, input: DeviceInput) -> InputRoute {
    match input {
        DeviceInput::Key { keycode, pressed } => InputRoute::Keyboard {
            kept: state.vt.keeps(keycode, pressed),
        },
        DeviceInput::Unhandled => InputRoute::Ignore,
        _ => if is_positioned(input) {
            match state.output {
                Some(mode) => InputRoute::DeliverWithin {
                    width: mode.width,
                    height: mode.height,
                },
                None => InputRoute::Ignore,
            }
        } else {
            InputRoute::Deliver
        },
    }
}

fn within_output(state: &State) -> (route: InputRoute)
    ensures
        route == (match state@.output {
            Some(mode) => InputRoute::DeliverWithin { width: mode.width, height: mode.height },
            None => InputRoute::Ignore,
        }),
{
    match state.output_mode() {
        Some(mode) => InputRoute::DeliverWithin { width: mode.width, height: mode.height },
        None => InputRoute::Ignore,
    }
}

/// Take up input of a device. Where the pointer moves, focus is looked at again.
pub fn route_input(state: &mut State, input: DeviceInput) -> (route: InputRoute)
    ensures
        route == route_of(old(state)@, input),
        if is_motion(input) {
            counted(old(state)@, input).is_refreshed(final(state)@)
        } else {
            final(state)@ == counted(old(state)@, input)
        },
{
    match input {
        DeviceInput::Key { keycode, pressed } => {
            state.bump_input_counter();
            let kept = state.vt_mut().filter_vt_keycode(keycode, pressed);
            InputRoute::Keyboard { kept }
        },
        DeviceInput::PointerMotion | DeviceInput::PointerMotionAbsolute => {
            state.bump_input_counter();
            state.refresh_focus();
            within_output(state)
        },
        DeviceInput::PointerButton | DeviceInput::PointerAxis | DeviceInput::TouchUp => {
            state.bump_input_counter();
            InputRoute::Deliver
        },
        DeviceInput::TouchDown | DeviceInput::TouchMotion => {
            state.bump_input_counter();
            within_output(state)
        },
        DeviceInput::TouchFrame | DeviceInput::TouchCancel | DeviceInput::Gesture => {
            InputRoute::Deliver
        },
        DeviceInput::Unhandled => InputRoute::Ignore,
    }
}

/// Time of an event in nanoseconds, from microseconds.
#[must_use]
pub fn event_time_ns(time_us: u64) -> (time_ns: u64)
    requires
        time_us * 1_000 <= u64::MAX,
    ensures
        time_ns == time_us * 1_000,
{
    time_us * 1_000
}

/// Without the terminal switch every key reaches the keyboard layout and its bindings.
pub proof fn lemma_no_key_is_kept_without_terminals(state: StateView, keycode: u32, pressed: bool)
    requires
        !state.vt.enabled,
    ensures
        route_of(state, DeviceInput::Key { keycode, pressed }) == (InputRoute::Keyboard {
            kept: false,
        }),
        counted(state, DeviceInput::Key { keycode, pressed }).vt == state.vt,
{
}

/// What becomes of input. Everything that a person does with keys, pointers and fingers is
/// counted, with the count wrapping at thirty-two bits, and the latest count is published.
/// Positions need an output to lie within and are dropped without one; everything else that
/// is known goes to the focused surface, keys through the keyboard.
pub proof fn lemma_input_finds_its_way(state: StateView, input: DeviceInput)
    ensures
        ({
            let after = counted(state, input);
            let route = route_of(state, input);
            let placed = input is PointerMotion || input is PointerMotionAbsolute || input
                is TouchDown || input is TouchMotion;
            let used = placed || input is Key || input is PointerButton || input is PointerAxis
                || input is TouchUp;
            &&& used ==> after.input_counter == (if state.input_counter == 0xffff_ffff {
                0
            } else {
                state.input_counter + 1
            }) && after.mailbox.input_counter == Some(after.input_counter)
            &&& !used ==> after.input_counter == state.input_counter && after.mailbox
                == state.mailbox
            &&& is_motion(input) <==> input is PointerMotion || input is PointerMotionAbsolute
            &&& match input {
                DeviceInput::Key { keycode, pressed } => {
                    &&& route == (InputRoute::Keyboard { kept: state.vt.keeps(keycode, pressed) })
                    &&& after.vt == state.vt.after_key(keycode, pressed)
                },
                _ => after.vt == state.vt,
            }
            &&& placed ==> match state.output {
                Some(mode) => route == (InputRoute::DeliverWithin {
                    width: mode.width,
                    height: mode.height,
                }),
                None => route == InputRoute::Ignore,
            }
            &&& input is PointerButton || input is PointerAxis || input is TouchUp || input
                is TouchFrame || input is TouchCancel || input is Gesture ==> route
                == InputRoute::Deliver
            &&& input is Unhandled ==> route == InputRoute::Ignore
        }),
{
}

} // verus!
