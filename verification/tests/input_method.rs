use gamescope::input_method::{
    InputMethodAction, InputMethodCommit, InputMethodState, UnknownInputMethodAction,
};
use gamescope::protocol::{Command, InputMethodCommand, InputMethodRequest, ServerConfig};
use gamescope::server::GamescopeState;

#[test]
fn stale_serial_preserves_double_buffered_state() {
    let mut state = InputMethodState::default();
    state.set_string("hello");
    state.set_action(InputMethodAction::Submit);

    assert_eq!(state.commit(0), None);
    assert_eq!(
        state.commit(1),
        Some(InputMethodCommit {
            text: Some("hello".into()),
            action: InputMethodAction::Submit,
        })
    );
    assert_eq!(
        state.commit(1),
        Some(InputMethodCommit {
            text: None,
            action: InputMethodAction::NoAction,
        })
    );
}

#[test]
fn pointer_timestamps_wrap_and_wheel_uses_120_units() {
    let mut state = InputMethodState::default();
    assert_eq!(state.next_pointer_timestamp(), 1);
    assert_eq!(state.next_pointer_timestamp(), 2);

    let mut server = GamescopeState::with_config(&ServerConfig::default());
    server.create_input_method(3);
    server.input_method_request(3, InputMethodRequest::PointerWheel { x: -120, y: 240 });
    let commands = server.drain_commands();
    let Command::InputMethod(InputMethodCommand::PointerWheel { x, y, time_msec }) = &commands[0]
    else {
        panic!("unexpected command: {commands:?}");
    };
    assert_eq!(*time_msec, 1);
    assert_eq!((*x, *y), (-120, 240));
    assert_eq!(
        (f64::from(*x) / 120.0, f64::from(*y) / 120.0),
        (-1.0, 2.0)
    );
}

#[test]
fn actions_have_protocol_numbers() {
    assert_eq!(InputMethodAction::try_from(0), Ok(InputMethodAction::NoAction));
    assert_eq!(InputMethodAction::try_from(1), Ok(InputMethodAction::Submit));
    assert_eq!(InputMethodAction::try_from(7), Ok(InputMethodAction::MoveDown));
    assert_eq!(
        InputMethodAction::try_from(8),
        Err(UnknownInputMethodAction(8))
    );
}

#[test]
fn a_new_serial_is_asked_for() {
    let mut state = InputMethodState::default();
    state.set_serial(9);
    assert_eq!(state.serial(), 9);
    assert_eq!(state.commit(1), None);
    assert!(state.commit(9).is_some());
}
