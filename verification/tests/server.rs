use gamescope::action_binding::{ARM_NO_BLOCK, ARM_ONE_SHOT};
use gamescope::control::{
    Feature, ScreenType, DISPLAY_SLEEP, DISPLAY_TYPE_EXTERNAL, TARGET_REFRESH_ALLOW_SWITCHING,
    TARGET_REFRESH_INTERNAL_DISPLAY, TARGET_REFRESH_ONLY_CHANGE_REFRESH_RATE,
};
use gamescope::input_method::InputMethodAction;
use gamescope::output::OutputConfig;
use gamescope::protocol::{
    ActiveDisplayInfo, BindingRequest, Command, ControlRequest, InputMethodCommand,
    InputMethodRequest, ReshadeRequest, ServerConfig, ServerEvent, SwapchainRequest,
};
use gamescope::server::GamescopeState;
use gamescope::state::State;
use gamescope::swapchain::{Chromaticity, HdrMetadata, SwapchainFeedback};

fn words(words: &[u32]) -> Vec<u8> {
    words.iter().flat_map(|word| word.to_ne_bytes()).collect()
}

fn deck() -> ActiveDisplayInfo {
    ActiveDisplayInfo {
        connector_name: "eDP-1".into(),
        display_make: "Valve".into(),
        display_model: "Steam Deck".into(),
        flags: 0x1 | 0x2 | 0x4,
        valid_refresh_rates_hz: vec![40, 60, 90],
    }
}

#[test]
fn gamescope_globals_round_trip_requests_and_events() {
    let config = ServerConfig {
        pipewire_node_id: Some(57),
        active_display: Some(deck()),
    };
    let mut server = GamescopeState::with_config(&config);
    let (control, private, reshade, binding) = (10, 11, 12, 13);

    let events = server.bind_control(control, config.active_display.clone());
    assert_eq!(events.len(), 9);
    assert!(matches!(
        &events[7],
        ServerEvent::FeatureSupport { resource: 10, support }
            if support.feature == Feature::Done && support.version == 0 && support.flags == 0
    ));
    assert_eq!(events[8], ServerEvent::ActiveDisplayInfo { resource: control });
    assert_eq!(server.active_display(), Some(&deck()));
    assert_eq!(server.refresh_rate_bytes(), words(&[40, 60, 90]));
    assert_eq!(
        GamescopeState::bind_pipewire(5, 57),
        ServerEvent::StreamNode {
            resource: 5,
            node_id: 57
        }
    );

    let events = server.set_active_display(Some(ActiveDisplayInfo {
        connector_name: "DP-1".into(),
        display_make: "ACME".into(),
        display_model: "External".into(),
        flags: 0x4,
        valid_refresh_rates_hz: vec![60, 120],
    }));
    assert_eq!(events, [ServerEvent::ActiveDisplayInfo { resource: control }]);
    assert_eq!(server.refresh_rate_bytes(), words(&[60, 120]));

    server.create_action_binding(binding);
    server.action_binding_request(
        binding,
        BindingRequest::SetDescription {
            description: "test binding".into(),
        },
    );
    server.action_binding_request(
        binding,
        BindingRequest::AddKeyboardTrigger {
            keysyms: words(&[0xffe3, u32::from(b'a')]),
        },
    );
    server.action_binding_request(
        binding,
        BindingRequest::Arm {
            arm_flags: ARM_ONE_SHOT,
        },
    );
    let (events, blocked) =
        server.process_pressed_keysyms(&[0xffe3, u32::from(b'A')], 0x0123_4567_89ab_cdef);
    assert!(!blocked);
    assert_eq!(events.len(), 1);
    assert!(matches!(
        &events[0],
        ServerEvent::Triggered { resource: 13, event }
            if event.sequence == 0
                && event.time_high == 0x0123_4567
                && event.time_low == 0x89ab_cdef
                && event.trigger_flags == 0x1
    ));
    let (events, blocked) = server.process_pressed_keysyms(&[0xffe3, u32::from(b'A')], 1);
    assert!(events.is_empty() && !blocked);

    server.bind_private(private);
    server.control_request(
        control,
        ControlRequest::SetAppTargetRefreshCycle {
            fps: 40,
            flags: TARGET_REFRESH_INTERNAL_DISPLAY
                | TARGET_REFRESH_ALLOW_SWITCHING
                | TARGET_REFRESH_ONLY_CHANGE_REFRESH_RATE,
        },
    );
    server.control_request(
        control,
        ControlRequest::RequestAppPerformanceStats { app_id: 769 },
    );
    server.private_execute(private, "show_fps".into(), "1".into());
    server.reshade_request(
        reshade,
        ReshadeRequest::SetEffect {
            path: "/tmp/test.fx".into(),
        },
    );

    let commands = server.drain_commands();
    assert_eq!(commands.len(), 3);
    match &commands[0] {
        Command::SetRefreshCycle(refresh) => {
            assert_eq!(refresh.screen, ScreenType::Internal);
            assert_eq!(refresh.frames_per_second, 40);
            assert!(refresh.allow_refresh_switching);
            assert!(!refresh.apply_frame_limiter);
        }
        command => panic!("unexpected command: {command:?}"),
    }
    let private_reply = match &commands[1] {
        Command::ExecutePrivate {
            reply,
            command,
            value,
        } => {
            assert_eq!(command, "show_fps");
            assert_eq!(value, "1");
            *reply
        }
        command => panic!("unexpected command: {command:?}"),
    };
    let reshade_reply = match &commands[2] {
        Command::SetReshadeEffect { reply, path } => {
            assert_eq!(path, "/tmp/test.fx");
            *reply
        }
        command => panic!("unexpected command: {command:?}"),
    };

    assert_eq!(
        server.private_command_executed(private_reply),
        Some(ServerEvent::CommandExecuted { resource: private })
    );
    assert_eq!(
        GamescopeState::reshade_effect_ready(reshade_reply, "/tmp/test.fx".into(), true),
        Some(ServerEvent::EffectReady {
            resource: reshade,
            path: "/tmp/test.fx".into()
        })
    );
    assert_eq!(
        server.broadcast_log("hello from gamescope".into()),
        [ServerEvent::Log {
            resource: private,
            text: "hello from gamescope".into()
        }]
    );
    assert_eq!(
        server.app_presented(769, 0x0123_4567_89ab_cdef),
        [ServerEvent::AppPerformanceStats {
            resource: control,
            app_id: 769,
            low: 0x89ab_cdef,
            high: 0x0123_4567,
        }]
    );
}

fn feedback(name: &str) -> SwapchainFeedback {
    SwapchainFeedback {
        image_count: 3,
        vk_format: 44,
        vk_colorspace: 0,
        vk_composite_alpha: 1,
        vk_pre_transform: 1,
        vk_clipped: 1,
        vk_engine_name: name.into(),
        hdr_metadata: None,
    }
}

#[test]
fn core_surface_commit_round_trips_vulkan_swapchain_timing() {
    let mut state = State::new(&OutputConfig::default());
    let (surface, swapchain) = (1, 2);
    let server = state.gamescope_state_mut();
    server.create_swapchain(surface, swapchain);
    server.swapchain_request(
        swapchain,
        SwapchainRequest::Feedback(feedback("integration-test")),
    );
    server.swapchain_request(
        swapchain,
        SwapchainRequest::SetPresentMode { vk_present_mode: 2 },
    );
    server.swapchain_request(
        swapchain,
        SwapchainRequest::SetPresentTime {
            present_id: 77,
            desired_high: 0,
            desired_low: 1_000_000,
        },
    );
    state.commit(surface);

    let presentation = state.presented(20_000_000, None);
    assert_eq!(presentation.surfaces, [surface]);
    assert_eq!(presentation.callback_msec, 20);
    assert_eq!(presentation.events.len(), 2);
    assert_eq!(
        presentation.events[0],
        ServerEvent::RefreshCycle {
            resource: swapchain,
            high: 0,
            low: 16_666_666
        }
    );
    match &presentation.events[1] {
        ServerEvent::PastPresentTiming { resource, timing } => {
            assert_eq!(*resource, swapchain);
            assert_eq!(timing.present_id, 77);
            assert_eq!(timing.desired_present_time_ns, 1_000_000);
            assert_eq!(timing.actual_present_time_ns, 20_000_000);
        }
        event => panic!("unexpected event: {event:?}"),
    }
    assert!(state.presented(40_000_000, None).events.is_empty());
}

#[test]
fn new_feedback_comes_without_hdr_metadata() {
    let point = |x: u32, y: u32| Chromaticity { x, y };
    let metadata = HdrMetadata {
        display_primary_red: point(35_400, 14_600),
        display_primary_green: point(8_500, 39_850),
        display_primary_blue: point(6_550, 2_300),
        white_point: point(15_635, 16_450),
        max_display_mastering_luminance: 1_000,
        min_display_mastering_luminance: 1,
        max_cll: 1_000,
        max_fall: 400,
    };
    let mut server = GamescopeState::default();
    server.create_swapchain(1, 2);
    let bright = SwapchainFeedback {
        hdr_metadata: Some(metadata),
        ..feedback("bright")
    };
    server.swapchain_request(2, SwapchainRequest::Feedback(bright.clone()));
    let commit = server.prepare_surface_commit(1).expect("surface");
    assert_eq!(commit.feedback, Some(feedback("bright")));
    server.swapchain_request(2, SwapchainRequest::SetHdrMetadata(metadata));
    let commit = server.prepare_surface_commit(1).expect("surface");
    assert_eq!(commit.feedback, Some(bright));
    server.swapchain_request(2, SwapchainRequest::Feedback(feedback("plain")));
    let commit = server.prepare_surface_commit(1).expect("surface");
    assert_eq!(commit.feedback, Some(feedback("plain")));
}

#[test]
fn private_input_method_preserves_serial_and_wheel_semantics() {
    let mut server = GamescopeState::with_config(&ServerConfig::default());
    let input_method = 3;
    assert_eq!(
        server.create_input_method(input_method),
        ServerEvent::InputMethodDone {
            resource: input_method,
            serial: 1
        }
    );

    server.input_method_request(
        input_method,
        InputMethodRequest::SetString { text: "A".into() },
    );
    server.input_method_request(input_method, InputMethodRequest::SetAction { action: 1 });
    server.input_method_request(input_method, InputMethodRequest::Commit { serial: 0 });
    server.input_method_request(
        input_method,
        InputMethodRequest::PointerWheel { x: -120, y: 240 },
    );
    server.input_method_request(input_method, InputMethodRequest::Commit { serial: 1 });

    let commands = server.drain_commands();
    assert_eq!(commands.len(), 2, "stale serial must not emit a commit");
    assert!(matches!(
        &commands[0],
        Command::InputMethod(InputMethodCommand::PointerWheel {
            x,
            y,
            time_msec: 1,
        }) if (f64::from(*x) / 120.0 + 1.0).abs() < f64::EPSILON
            && (f64::from(*y) / 120.0 - 2.0).abs() < f64::EPSILON
    ));
    assert!(matches!(
        &commands[1],
        Command::InputMethod(InputMethodCommand::Commit(commit))
            if commit.text.as_deref() == Some("A")
                && commit.action == InputMethodAction::Submit
    ));
}

#[test]
fn blocking_bindings_stop_later_ones() {
    let mut server = GamescopeState::with_config(&ServerConfig::default());
    for (resource, arm_flags) in [(1, 0), (2, ARM_NO_BLOCK), (3, 0)] {
        server.create_action_binding(resource);
        server.action_binding_request(
            resource,
            BindingRequest::AddKeyboardTrigger {
                keysyms: words(&[0xff61]),
            },
        );
        server.action_binding_request(resource, BindingRequest::Arm { arm_flags });
    }
    let (events, blocked) = server.process_pressed_keysyms(&[0xff61], 0);
    assert!(blocked);
    assert_eq!(events.len(), 2);
    assert!(matches!(
        &events[1],
        ServerEvent::Triggered { resource: 2, event } if event.sequence == 1
    ));
    server.action_binding_request(2, BindingRequest::Disarm);
    let (events, blocked) = server.process_pressed_keysyms(&[0xff61], 0);
    assert!(!blocked);
    assert_eq!(events.len(), 2);
    assert!(matches!(
        &events[1],
        ServerEvent::Triggered { resource: 3, event } if event.sequence == 3
    ));
    server.action_binding_request(1, BindingRequest::ClearTriggers);
    assert_eq!(server.process_pressed_keysyms(&[0xff61], 0).0.len(), 1);
}

#[test]
fn destroyed_objects_are_forgotten() {
    let mut server = GamescopeState::with_config(&ServerConfig::default());
    server.bind_control(1, None);
    server.bind_control(2, None);
    server.control_request(1, ControlRequest::RequestAppPerformanceStats { app_id: 5 });
    server.resource_destroyed(1);
    assert!(server.app_presented(5, 1).is_empty());
    assert_eq!(
        server.screenshot_taken("a.png".into()),
        [ServerEvent::ScreenshotTaken {
            resource: 2,
            path: "a.png".into()
        }]
    );
    server.bind_private(3);
    server.resource_destroyed(3);
    assert!(server.broadcast_log("x".into()).is_empty());
    assert_eq!(
        GamescopeState::reshade_effect_ready(gamescope::protocol::ReshadeReply(4), "x".into(), false),
        None
    );
}

#[test]
fn destroyed_surfaces_have_no_commits() {
    let mut server = GamescopeState::with_config(&ServerConfig::default());
    server.create_swapchain(7, 8);
    server.swapchain_request(8, SwapchainRequest::SetPresentMode { vk_present_mode: 1 });
    assert_eq!(
        server.prepare_surface_commit(7).and_then(|metadata| metadata.vk_present_mode),
        Some(1)
    );
    assert_eq!(
        server.prepare_surface_commit(7).and_then(|metadata| metadata.vk_present_mode),
        None
    );
    server.surface_destroyed(7);
    assert_eq!(server.prepare_surface_commit(7), None);
}

#[test]
fn control_requests_become_commands() {
    let mut server = GamescopeState::with_config(&ServerConfig::default());
    server.bind_control(1, None);
    server.control_request(
        1,
        ControlRequest::TakeScreenshot {
            path: "/tmp/x.png".into(),
            screenshot_type: 2,
            flags: 3,
        },
    );
    server.control_request(
        1,
        ControlRequest::DisplaySleep {
            display_type: DISPLAY_TYPE_EXTERNAL,
            flags: DISPLAY_SLEEP,
        },
    );
    server.control_request(1, ControlRequest::UnsetLook);
    server.control_request(1, ControlRequest::Destroy);
    server.override_window_content(9, 1, 2);
    let commands = server.drain_commands();
    assert_eq!(commands.len(), 4);
    assert!(matches!(
        &commands[0],
        Command::TakeScreenshot { path, screenshot_type: 2, flags: 3 } if path == "/tmp/x.png"
    ));
    assert!(matches!(
        &commands[1],
        Command::SetDisplayPower(operation)
            if operation.screen == ScreenType::External && operation.sleep
    ));
    assert!(matches!(&commands[2], Command::UnsetLook));
    assert!(matches!(
        &commands[3],
        Command::OverrideWindowContent {
            surface: 9,
            xwayland_server_id: 1,
            x11_window: 2
        }
    ));
    assert!(server.drain_commands().is_empty());
}

#[test]
fn pointer_requests_are_stamped_in_their_order() {
    let mut server = GamescopeState::with_config(&ServerConfig::default());
    server.create_input_method(1);
    server.input_method_request(1, InputMethodRequest::PointerMotion { dx: 256, dy: -512 });
    server.input_method_request(1, InputMethodRequest::PointerButton { button: 272, state: 1 });
    server.input_method_request(1, InputMethodRequest::SetAction { action: 99 });
    let commands = server.drain_commands();
    assert_eq!(
        commands,
        [
            Command::InputMethod(InputMethodCommand::PointerMotion {
                dx: 256,
                dy: -512,
                time_msec: 1
            }),
            Command::InputMethod(InputMethodCommand::PointerButton {
                button: 272,
                pressed: true,
                time_msec: 2
            }),
        ]
    );
}
