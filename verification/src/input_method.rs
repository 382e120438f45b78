//! Transactional state for `gamescope_input_method`.

use vstd::prelude::*;

use crate::text;

verus! {

/// Editing actions of the input-method protocol.
#[derive(Clone, Copy, Debug, PartialEq, Eq, Structural)]
pub enum InputMethodAction {
    NoAction,
    Submit,
    DeleteLeft,
    DeleteRight,
    MoveLeft,
    MoveRight,
    MoveUp,
    MoveDown,
}

impl Default for InputMethodAction {
    fn default() -> (action: Self)
        ensures
            action == InputMethodAction::NoAction,
    {
        InputMethodAction::NoAction
    }
}

impl InputMethodAction {
    /// The protocol number of an action.
    pub open spec fn number(self) -> u32 {
        match self {
            InputMethodAction::NoAction => 0,
            InputMethodAction::Submit => 1,
            InputMethodAction::DeleteLeft => 2,
            InputMethodAction::DeleteRight => 3,
            InputMethodAction::MoveLeft => 4,
            InputMethodAction::MoveRight => 5,
            InputMethodAction::MoveUp => 6,
            InputMethodAction::MoveDown => 7,
        }
    }

    /// The action with a protocol number.
    pub open spec fn numbered(value: u32) -> Option<InputMethodAction> {
        if value == 0 {
            Some(InputMethodAction::NoAction)
        } else if value == 1 {
            Some(InputMethodAction::Submit)
        } else if value == 2 {
            Some(InputMethodAction::DeleteLeft)
        } else if value == 3 {
            Some(InputMethodAction::DeleteRight)
        } else if value == 4 {
            Some(InputMethodAction::MoveLeft)
        } else if value == 5 {
            Some(InputMethodAction::MoveRight)
        } else if value == 6 {
            Some(InputMethodAction::MoveUp)
        } else if value == 7 {
            Some(InputMethodAction::MoveDown)
        } else {
            None
        }
    }
}

impl TryFrom<u32> for InputMethodAction {
    type Error = UnknownInputMethodAction;

    fn try_from(value: u32) -> (action: Result<Self, UnknownInputMethodAction>) {
        match value {
            0 => Ok(InputMethodAction::NoAction),
            1 => Ok(InputMethodAction::Submit),
            2 => Ok(InputMethodAction::DeleteLeft),
            3 => Ok(InputMethodAction::DeleteRight),
            4 => Ok(InputMethodAction::MoveLeft),
            5 => Ok(InputMethodAction::MoveRight),
            6 => Ok(InputMethodAction::MoveUp),
            7 => Ok(InputMethodAction::MoveDown),
            _ => Err(UnknownInputMethodAction(value)),
        }
    }
}

impl vstd::std_specs::convert::TryFromSpecImpl<u32> for InputMethodAction {
    open spec fn obeys_try_from_spec() -> bool {
        true
    }

    open spec fn try_from_spec(value: u32) -> Result<Self, UnknownInputMethodAction> {
        match InputMethodAction::numbered(value) {
            Some(action) => Ok(action),
            None => Err(UnknownInputMethodAction(value)),
        }
    }
}

/// Numbers and actions correspond one to one.
pub proof fn lemma_action_numbers(action: InputMethodAction, value: u32)
    ensures
        InputMethodAction::numbered(value) == Some(action) <==> value == action.number(),
        InputMethodAction::numbered(value) is None <==> value > 7,
{
}

/// An action not known by this protocol version.
#[derive(Clone, Copy, Debug, PartialEq, Eq, Structural)]
pub struct UnknownInputMethodAction(pub u32);

/// State atomically applied by a matching `commit` request.
#[derive(Clone, Debug, PartialEq, Eq)]
pub struct InputMethodCommit {
    pub text: Option<String>,
    pub action: InputMethodAction,
}

/// What an input-method state holds.
pub struct InputMethodView {
    pub serial: u32,
    pub pending_text: Option<Seq<char>>,
    pub pending_action: InputMethodAction,
    pub pointer_timestamp: u32,
}

/// Double-buffered IME state. The first serial is 1.
#[derive(Clone, Debug, PartialEq, Eq)]
pub struct InputMethodState {
    serial: u32,
    pending_text: Option<String>,
    pending_action: InputMethodAction,
    fake_pointer_timestamp: u32,
}

impl View for InputMethodState {
    type V = InputMethodView;

    closed spec fn view(&self) -> InputMethodView {
        InputMethodView {
            serial: self.serial,
            pending_text: text::optional(self.pending_text),
            pending_action: self.pending_action,
            pointer_timestamp: self.fake_pointer_timestamp,
        }
    }
}

impl Default for InputMethodState {
    fn default() -> (state: Self)
        ensures
            state@ == (InputMethodView {
                serial: 1,
                pending_text: None,
                pending_action: InputMethodAction::NoAction,
                pointer_timestamp: 0,
            }),
    {
        Self {
            serial: 1,
            pending_text: None,
            pending_action: InputMethodAction::NoAction,
            fake_pointer_timestamp: 0,
        }
    }
}

impl InputMethodState {
    #[must_use]
    pub fn serial(&self) -> (serial: u32)
        ensures
            serial == self@.serial,
    {
        self.serial
    }

    /// Update the compositor serial for a future `done` event.
    pub fn set_serial(&mut self, serial: u32)
        ensures
            final(self)@ == (InputMethodView { serial, ..old(self)@ }),
    {
        self.serial = serial;
    }

    /// Replace the pending string.
    pub fn set_string(&mut self, text: &str)
        ensures
            final(self)@ == (InputMethodView { pending_text: Some(text@), ..old(self)@ }),
    {
        self.pending_text = Some(text.to_owned());
    }

    /// Replace the pending action.
    pub fn set_action(&mut self, action: InputMethodAction)
        ensures
            final(self)@ == (InputMethodView { pending_action: action, ..old(self)@ }),
    {
        self.pending_action = action;
    }

    /// Apply pending state only when the client echoes the current serial.
    /// A stale commit preserves pending state.
    pub fn commit(&mut self, serial: u32) -> (committed: Option<InputMethodCommit>)
        ensures
            match committed {
                Some(commit) => {
                    &&& serial == old(self)@.serial
                    &&& text::optional(commit.text) == old(self)@.pending_text
                    &&& commit.action == old(self)@.pending_action
                    &&& final(self)@ == (InputMethodView {
                        pending_text: None,
                        pending_action: InputMethodAction::NoAction,
                        ..old(self)@
                    })
                },
                None => serial != old(self)@.serial && final(self)@ == old(self)@,
            },
    {
        if serial != self.serial {
            return None;
        }
        let action = self.pending_action;
        self.pending_action = InputMethodAction::NoAction;
        Some(InputMethodCommit { text: self.pending_text.take(), action })
    }

    /// Allocate the incrementing synthetic timestamp used by pointer requests.
    pub fn next_pointer_timestamp(&mut self) -> (timestamp: u32)
        ensures
            timestamp == (old(self)@.pointer_timestamp + 1) % 0x1_0000_0000,
            final(self)@ == (InputMethodView { pointer_timestamp: timestamp, ..old(self)@ }),
    {
        self.fake_pointer_timestamp = self.fake_pointer_timestamp.wrapping_add(1);
        self.fake_pointer_timestamp
    }
}

/// The numbers of the actions are those of the protocol.
pub proof fn lemma_actions_have_protocol_numbers()
    ensures
        InputMethodAction::numbered(0) == Some(InputMethodAction::NoAction),
        InputMethodAction::numbered(1) == Some(InputMethodAction::Submit),
        InputMethodAction::numbered(2) == Some(InputMethodAction::DeleteLeft),
        InputMethodAction::numbered(3) == Some(InputMethodAction::DeleteRight),
        InputMethodAction::numbered(4) == Some(InputMethodAction::MoveLeft),
        InputMethodAction::numbered(5) == Some(InputMethodAction::MoveRight),
        InputMethodAction::numbered(6) == Some(InputMethodAction::MoveUp),
        InputMethodAction::numbered(7) == Some(InputMethodAction::MoveDown),
{
}

} // verus!
