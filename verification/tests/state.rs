use gamescope::output::OutputConfig;
use gamescope::protocol::{Command, ServerConfig, ServerEvent};
use gamescope::state::{
    configure_request, Effect, FocusSize, KeyboardFocusTarget, State, SteamRuntimeRequest,
    WindowGeometry, WindowProperty,
};
use gamescope::steam::{BridgeEvent, FocusControl, WindowMetadata};
use gamescope::steam_worker::{
    bridge_initial_state, BridgeInitialState, RootProperties, SteamBridgeWorker, SteamWorkerCommand,
    SteamWorkerEvent, SteamWorkerState, WorkerAction,
};
use gamescope::window_policy::{RenderLayer, X11Window};

fn compositor() -> State {
    let mut state =
        State::new_with_server_config(&OutputConfig::default(), true, &ServerConfig::default());
    state.register_xwayland(100, 0, 2);
    state.register_xwayland(101, 1, 3);
    state
}

fn window(xwm_id: u32, window_id: u32, surface: u64) -> X11Window {
    X11Window {
        xwm_id: Some(xwm_id),
        window_id,
        alive: true,
        mapped: true,
        override_redirect: false,
        transient_for: None,
        width: 1280,
        height: 720,
        pid: Some(9),
        surface: Some(surface),
    }
}

fn metadata(app_id: u32) -> WindowMetadata {
    WindowMetadata {
        app_id,
        ..WindowMetadata::default()
    }
}

fn report(state: &mut State, server_id: u32, window: u32, metadata: WindowMetadata) {
    state.queue_steam_event(SteamWorkerEvent::WindowMetadata {
        server_id,
        window,
        metadata,
    });
    state.process_steam_events();
}

fn surfaces(layers: &[RenderLayer]) -> Vec<u64> {
    layers.iter().map(|layer| layer.surface).collect()
}

#[test]
fn a_mapped_game_gets_keyboard_and_x11_focus() {
    let mut state = compositor();
    state.map_window_request(window(100, 7, 70));
    report(&mut state, 0, 7, metadata(42));
    let effects = state.take_effects();
    assert!(effects.contains(&Effect::SetKeyboardFocus(Some(KeyboardFocusTarget::X11(
        window(100, 7, 70)
    )))));
    assert!(effects.contains(&Effect::Raise {
        xwm_id: 100,
        window_id: 7
    }));
    assert!(effects.contains(&Effect::SetActivated {
        xwm_id: Some(100),
        window_id: 7,
        active: true
    }));
    assert_eq!(state.primary_surface(), Some(70));
    assert_eq!(state.pointer_focus(), Some(70));
    assert_eq!(surfaces(&state.render_layers()), [70]);
}

#[test]
fn x11_focus_is_not_set_again() {
    let mut state = compositor();
    state.map_window_request(window(100, 7, 70));
    report(&mut state, 0, 7, metadata(42));
    state.take_effects();
    state.refresh_focus();
    assert_eq!(
        state.take_effects(),
        [Effect::FitWindow {
            xwm_id: Some(100),
            window_id: 7,
            size: FocusSize::Output {
                width: 1280,
                height: 720
            },
        }]
    );
}

#[test]
fn late_hints_make_a_window_enter_again() {
    let mut state = compositor();
    let game = window(100, 7, 70);
    state.map_window_request(game);
    report(&mut state, 0, 7, metadata(42));
    state.take_effects();
    state.property_notify(100, &game, WindowProperty::Title);
    assert!(!state
        .take_effects()
        .iter()
        .any(|effect| matches!(effect, Effect::SetKeyboardFocus(_))));
    state.property_notify(100, &game, WindowProperty::Hints);
    let effects = state.take_effects();
    assert_eq!(effects[0], Effect::SetKeyboardFocus(None));
    assert_eq!(
        effects[1],
        Effect::SetKeyboardFocus(Some(KeyboardFocusTarget::X11(game)))
    );
    assert!(effects.contains(&Effect::Raise {
        xwm_id: 100,
        window_id: 7
    }));
}

#[test]
fn a_destroyed_window_gives_everything_up() {
    let mut state = compositor();
    state.map_window_request(window(100, 7, 70));
    state.map_window_request(window(100, 8, 80));
    report(&mut state, 0, 7, metadata(42));
    report(&mut state, 0, 8, metadata(43));
    assert_eq!(state.primary_surface(), Some(80));
    state.take_effects();
    state.destroyed_window(100, 8);
    assert_eq!(state.primary_surface(), Some(70));
    let effects = state.take_effects();
    assert_eq!(effects[0], Effect::SetKeyboardFocus(None));
    assert_eq!(
        effects[1],
        Effect::SetKeyboardFocus(Some(KeyboardFocusTarget::X11(window(100, 7, 70))))
    );
}

#[test]
fn identities_are_reused_by_new_windows() {
    let mut state = compositor();
    let mut dead = window(100, 7, 70);
    dead.alive = false;
    state.new_window(dead);
    state.new_window(window(100, 7, 71));
    report(&mut state, 0, 7, metadata(42));
    assert_eq!(state.primary_surface(), Some(71));
}

#[test]
fn a_removed_server_leaves_nothing_behind() {
    let mut state = compositor();
    state.map_window_request(window(101, 7, 70));
    report(&mut state, 1, 7, metadata(42));
    assert_eq!(state.primary_surface(), Some(70));
    assert_eq!(state.display_number(1), Some(3));
    assert!(state.remove_xwayland(1));
    assert!(!state.remove_xwayland(1));
    assert_eq!(state.display_number(1), None);
    assert_eq!(state.primary_surface(), None);
    assert_eq!(state.xwayland_server_id(Some(101)), 0);
    assert!(state
        .steam_worker_mut()
        .take_commands()
        .contains(&SteamWorkerCommand::Remove { server_id: 1 }));
}

#[test]
fn overlays_are_drawn_over_the_game_and_get_input() {
    let mut state = compositor();
    state.map_window_request(window(100, 7, 70));
    report(&mut state, 0, 7, metadata(42));
    state.map_window_request(window(100, 9, 90));
    let mut overlay = metadata(769);
    overlay.overlay = true;
    overlay.input_focus_mode = 1;
    overlay.opacity = 0;
    report(&mut state, 0, 9, overlay);
    assert_eq!(surfaces(&state.render_layers()), [70]);
    overlay.opacity = 0x8000_0000;
    report(&mut state, 0, 9, overlay);
    let layers = state.render_layers();
    assert_eq!(surfaces(&layers), [70, 90]);
    assert!(!layers[0].force_blend);
    assert!(layers[1].force_blend);
    assert_eq!(layers[1].opacity, 0x8000_0000);
    assert_eq!(state.pointer_focus(), Some(90));
}

#[test]
fn steam_windows_are_no_higher_than_steam_wants() {
    let mut state = compositor();
    state.map_window_request(window(100, 7, 70));
    report(&mut state, 0, 7, metadata(769));
    state.queue_steam_event(SteamWorkerEvent::Event {
        server_id: 0,
        event: BridgeEvent::SteamMaxHeightChanged(600),
    });
    state.process_steam_events();
    assert!(state.take_effects().contains(&Effect::FitWindow {
        xwm_id: Some(100),
        window_id: 7,
        size: FocusSize::Limited {
            width: 1280,
            height: 720,
            limit: 600
        },
    }));
}

fn initial(fps_limit: u32) -> BridgeInitialState {
    bridge_initial_state(RootProperties {
        focus_control: FocusControl::default(),
        games_running: None,
        steam_max_height: Some(0),
        fps_limit: Some(fps_limit),
        screen_scale: None,
        screen_magnification: Some(5),
        force_internal: Some(1),
        composite_force: None,
    })
}

#[test]
fn ready_servers_are_counted_and_asked_for_their_wishes() {
    let mut state = compositor();
    state.set_limiter_file();
    assert_eq!(
        state.take_effects(),
        [Effect::WriteLimiter { enabled: false }]
    );
    state.queue_steam_event(SteamWorkerEvent::Ready {
        server_id: 0,
        initial: initial(30),
    });
    state.queue_steam_event(SteamWorkerEvent::Error {
        server_id: Some(1),
        message: "no display".into(),
    });
    let requests = state.process_steam_events();
    assert_eq!(state.ready_xwayland_count(), 2);
    assert!(requests.contains(&SteamRuntimeRequest::SetForceInternal { force: true }));
    assert!(state
        .take_effects()
        .contains(&Effect::WriteLimiter { enabled: true }));
    assert_eq!(state.screen_scales(), (u32::MAX, 5));
}

#[test]
fn replaced_contents_are_drawn_but_get_no_input() {
    let mut state = compositor();
    state.map_window_request(window(100, 7, 70));
    report(&mut state, 0, 7, metadata(42));
    state.steam_worker_mut().take_commands();
    state.gamescope_state_mut().override_window_content(500, 0, 55);
    assert!(state.process_gamescope_commands().is_empty());
    let resolve = SteamWorkerCommand::ResolveWindow {
        server_id: 0,
        window: 55,
    };
    assert_eq!(state.steam_worker_mut().take_commands(), [resolve]);
    state.gamescope_state_mut().override_window_content(501, 0, 55);
    state.process_gamescope_commands();
    assert!(state.steam_worker_mut().take_commands().is_empty());
    state.queue_steam_event(SteamWorkerEvent::WindowAncestors {
        server_id: 0,
        window: 55,
        ancestors: vec![55, 7],
    });
    state.process_steam_events();
    assert_eq!(state.primary_surface(), Some(501));
    assert_eq!(state.pointer_focus(), Some(70));
}

#[test]
fn commands_for_other_subsystems_come_back() {
    let mut state = compositor();
    let server = state.gamescope_state_mut();
    server.bind_private(4);
    server.private_execute(4, "a".into(), "b".into());
    server.control_request(1, gamescope::protocol::ControlRequest::UnsetLook);
    assert_eq!(state.process_gamescope_commands(), [Command::UnsetLook]);
    assert_eq!(
        state.take_effects(),
        [Effect::Send(ServerEvent::CommandExecuted { resource: 4 })]
    );
}

#[test]
fn keys_are_held_until_released() {
    let mut state = compositor();
    let server = state.gamescope_state_mut();
    server.create_action_binding(6);
    server.action_binding_request(
        6,
        gamescope::protocol::BindingRequest::AddKeyboardTrigger {
            keysyms: [0xffeb_u32, 0x61].iter().flat_map(|key| key.to_ne_bytes()).collect(),
        },
    );
    server.action_binding_request(6, gamescope::protocol::BindingRequest::Arm { arm_flags: 2 });
    assert_eq!(state.filter_key(0xffeb, true, 1), (vec![], false));
    let (events, kept) = state.filter_key(0x61, true, 2);
    assert!(kept);
    assert_eq!(events.len(), 1);
    assert_eq!(state.filter_key(0x61, false, 3), (vec![], false));
    assert_eq!(state.filter_key(0x62, true, 4), (vec![], false));
    assert_eq!(state.filter_key(0x61, true, 5).0.len(), 0);
    assert_eq!(state.held_keys(), 3);
    state.release_all_keys();
    assert_eq!(state.held_keys(), 0);
    assert_eq!(state.filter_key(0x61, true, 6).0.len(), 0);
    assert_eq!(state.filter_key(0xffeb, true, 7).0.len(), 1);
}

#[test]
fn presentations_are_numbered() {
    let mut state = compositor();
    state.new_toplevel(30);
    let presentation = state.presented_with_metadata(u128::from(u64::MAX) * 2, 5, 0, Some(31));
    assert_eq!(presentation.sequence, 1);
    assert_eq!(presentation.callback_msec, u32::MAX);
    assert_eq!(presentation.surfaces, [30, 31]);
    assert_eq!(state.presented_with_metadata(0, 5, 9, Some(30)).sequence, 9);
    let presentation = state.presented(0, Some(30));
    assert_eq!(presentation.sequence, 10);
    assert_eq!(presentation.surfaces, [30]);
}

#[test]
fn native_toplevels_get_the_keyboard_without_x11_windows() {
    let mut state = compositor();
    state.new_toplevel(30);
    assert_eq!(state.primary_surface(), Some(30));
    assert!(state
        .take_effects()
        .contains(&Effect::SetKeyboardFocus(Some(KeyboardFocusTarget::Wayland(30)))));
    state.toplevel_destroyed(30);
    state.focus_changed(None);
    assert_eq!(state.primary_surface(), None);
}

#[test]
fn windows_get_what_they_ask_for() {
    let geometry = WindowGeometry {
        x: 1,
        y: 2,
        width: 3,
        height: 4,
    };
    assert_eq!(
        configure_request(geometry, Some(-5), None, Some(60), Some(u32::MAX)),
        WindowGeometry {
            x: -5,
            y: 2,
            width: 60,
            height: 4,
        }
    );
    let mut state = compositor();
    state.unfullscreen_request(&window(100, 7, 70));
    assert_eq!(
        state.take_effects(),
        [Effect::SetFullscreen {
            xwm_id: Some(100),
            window_id: 7
        }]
    );
}

#[test]
fn nested_compositors_describe_their_display() {
    let config = OutputConfig {
        width: 1280,
        height: 720,
        refresh_millihz: 59_940,
    };
    let state = State::new(&config);
    let display = state.gamescope_state().active_display().expect("display");
    assert_eq!(display.connector_name, "gamescope");
    assert_eq!(display.valid_refresh_rates_hz, [60]);
    let negative = OutputConfig {
        refresh_millihz: -60_000,
        ..config
    };
    let state = State::new_with_steam(&negative, true);
    let display = state.gamescope_state().active_display().expect("display");
    assert_eq!(display.valid_refresh_rates_hz, [60]);
    assert_eq!((display.display_make.as_str(), display.flags), ("Valve", 0));
}

#[test]
fn the_worker_writes_only_the_latest_publications() {
    let mut state = compositor();
    let mut worker = SteamWorkerState::new();
    for command in state.steam_worker_mut().take_commands() {
        assert!(matches!(
            worker.process_worker_command(command)[0],
            WorkerAction::Connect { .. }
        ));
    }
    worker.bridge_ready(0);
    state.bump_input_counter();
    state.bump_input_counter();
    state.publish_hardware_vrr(true, false);
    state.publish_direct_scanout_status(4);
    let actions = worker.take_publications(state.steam_worker_mut());
    assert!(actions.contains(&WorkerAction::WriteInputCounter(2)));
    assert!(actions.contains(&WorkerAction::WriteScanoutStatus(4)));
    assert!(worker.take_publications(state.steam_worker_mut()).is_empty());
}

#[test]
fn the_worker_remembers_processes_of_windows() {
    let mut worker = SteamWorkerState::new();
    worker.bridge_ready(3);
    let actions = worker.process_worker_command(SteamWorkerCommand::WatchWindow {
        server_id: 3,
        window: 8,
        pid: Some(77),
    });
    assert_eq!(
        actions,
        [
            WorkerAction::Watch {
                server_id: 3,
                window: 8
            },
            WorkerAction::ReadMetadata {
                server_id: 3,
                window: 8,
                pid: Some(77)
            }
        ]
    );
    assert_eq!(
        worker.bridge_event(3, BridgeEvent::WindowChanged(8)),
        WorkerAction::ReadMetadata {
            server_id: 3,
            window: 8,
            pid: Some(77)
        }
    );
    assert_eq!(
        worker.bridge_event(3, BridgeEvent::FocusControlChanged),
        WorkerAction::ReadFocusControl { server_id: 3 }
    );
    worker.process_worker_command(SteamWorkerCommand::Remove { server_id: 3 });
    assert_eq!(
        worker.bridge_event(3, BridgeEvent::WindowChanged(8)),
        WorkerAction::ReadMetadata {
            server_id: 3,
            window: 8,
            pid: None
        }
    );
}

#[test]
fn mailboxes_are_handed_over_without_loss() {
    let mut shared = SteamBridgeWorker::new();
    let mut older = SteamBridgeWorker::new();
    older.remove(4);
    older.set_input_focus(0, Some(1));
    older.set_input_focus(1, None);
    older.publish_input_counter(7);
    older.publish_refresh(60_000);
    shared.absorb(older);
    let mut newer = SteamBridgeWorker::new();
    newer.remove(5);
    newer.set_input_focus(0, Some(2));
    newer.publish_input_counter(8);
    shared.absorb(newer);
    assert_eq!(
        shared.take_commands(),
        [
            SteamWorkerCommand::Remove { server_id: 4 },
            SteamWorkerCommand::Remove { server_id: 5 }
        ]
    );
    let mut worker = SteamWorkerState::new();
    worker.bridge_ready(0);
    worker.bridge_ready(1);
    assert_eq!(
        worker.take_publications(&mut shared),
        [
            WorkerAction::WriteInputCounter(8),
            WorkerAction::WriteRefresh(60_000),
            WorkerAction::SetInputFocus {
                server_id: 0,
                window: Some(2)
            },
            WorkerAction::SetInputFocus {
                server_id: 1,
                window: None
            }
        ]
    );
}

#[test]
fn a_late_shell_event_does_not_keep_the_keyboard() {
    let mut state = compositor();
    assert!(!state.repair_keyboard_focus());
    let game = window(100, 7, 70);
    state.map_window_request(game);
    report(&mut state, 0, 7, metadata(42));
    assert!(!state.repair_keyboard_focus());
    state.focus_changed(Some(KeyboardFocusTarget::Wayland(33)));
    state.take_effects();
    assert!(state.repair_keyboard_focus());
    assert_eq!(
        state.take_effects()[0],
        Effect::SetKeyboardFocus(Some(KeyboardFocusTarget::X11(game)))
    );
    assert!(!state.repair_keyboard_focus());
}

#[test]
fn physical_changes_are_published() {
    let mut state = compositor();
    state.gamescope_state_mut().bind_control(5, None);
    state.publish_screenshot_taken("/tmp/shot.png".into());
    assert_eq!(
        state.take_effects(),
        [Effect::Send(ServerEvent::ScreenshotTaken {
            resource: 5,
            path: "/tmp/shot.png".into()
        })]
    );
    state.publish_output_refresh(48_000);
    let mode = state.output_mode().expect("mode");
    assert_eq!((mode.width, mode.height, mode.refresh), (1280, 720, 48_000));
    let mut worker = SteamWorkerState::new();
    worker.bridge_ready(0);
    let actions = worker.take_publications(state.steam_worker_mut());
    assert_eq!(actions.last(), Some(&WorkerAction::WriteRefresh(48_000)));
    assert_eq!(worker.take_publications(state.steam_worker_mut()), []);
}
