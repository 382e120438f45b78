use gamescope::control::{DisplayPowerOperation, RefreshCycleOverride, ScreenType};
use gamescope::drm::{DirectScanoutStatus, HardwareControl};
use gamescope::drm_worker::{HardwareEvent, HardwareOutputInfo};
use gamescope::frame_loop::{
    active_display_info, physical_refresh_interval, presentation_interval,
    refresh_limit_interval, repaint_delay, FramePoll, FrameScheduler,
};
use gamescope::input_routing::{event_time_ns, route_input, DeviceInput, InputRoute};
use gamescope::output::OutputConfig;
use gamescope::protocol::{Command, ServerConfig};
use gamescope::state::{State, SteamRuntimeRequest};
use gamescope::xwayland::{XwaylandServers, XwaylandStep};

#[test]
fn refresh_cycle_limiter_keeps_a_render_margin() {
    let physical = output(80_000);
    assert_eq!(physical_refresh_interval(&physical), 12_500_000);
    let request = RefreshCycleOverride {
        screen: ScreenType::Internal,
        frames_per_second: 40,
        allow_refresh_switching: true,
        apply_frame_limiter: true,
    };
    let limit = refresh_limit_interval(request).expect("limiter enabled");
    assert_eq!(limit, 25_000_000);
    assert_eq!(repaint_delay(&physical, Some(limit)), 20_000_000);
}

#[test]
fn repaint_delays_are_those_of_binary_fractions() {
    let rates = [i32::MIN, 0, 1, 2, 3, 7, 59_940, 60_000, 90_000, 144_000, 1_000_707, i32::MAX];
    for rate in rates.into_iter().chain((1..2_000_000_000).step_by(1_000_003)) {
        let output = output(rate);
        let physical = std::time::Duration::from_nanos(physical_refresh_interval(&output));
        let expected = physical.saturating_sub(physical.mul_f64(0.4));
        assert_eq!(
            u128::from(repaint_delay(&output, None)),
            expected.as_nanos()
        );
    }
}

fn output(refresh_millihz: i32) -> HardwareOutputInfo {
    HardwareOutputInfo {
        connector: "eDP-1".into(),
        display_make: "Valve".into(),
        display_model: "Deck".into(),
        screen: ScreenType::Internal,
        width: 1280,
        height: 800,
        refresh_millihz,
        device_id: 1,
        render_formats: vec![],
        scanout_formats: vec![],
        atomic: true,
        vrr_capable: true,
        vrr_enabled: false,
        valid_refresh_rates_hz: vec![40, 90],
    }
}

fn compositor() -> State {
    State::new_with_server_config(&OutputConfig::default(), true, &ServerConfig::default())
}

#[test]
fn intervals_follow_the_output() {
    assert_eq!(physical_refresh_interval(&output(60_000)), 16_666_666);
    assert_eq!(physical_refresh_interval(&output(0)), 16_666_667);
    assert_eq!(physical_refresh_interval(&output(-5)), 16_666_667);
    assert_eq!(presentation_interval(10, None), 10);
    assert_eq!(presentation_interval(10, Some(5)), 10);
    assert_eq!(presentation_interval(10, Some(25)), 25);
    let display = active_display_info(&output(90_000));
    assert_eq!(display.flags, 5);
    assert_eq!(display.connector_name, "eDP-1");
    assert_eq!(display.valid_refresh_rates_hz, [40, 90]);
}

#[test]
fn frames_follow_flips() {
    let mut state = compositor();
    let config = OutputConfig::unspecified();
    let mut scheduler = FrameScheduler::new(output(100_000), 50);
    assert_eq!(scheduler.timeout(50), 0);
    assert_eq!(scheduler.timeout(20), 30);
    assert_eq!(scheduler.frame_interval(), 10_000_000);
    assert_eq!(scheduler.predicted(1_000), 10_001_000);
    let FramePoll::Submit { frame, presentation } = scheduler.poll(50, 1_000, None, &mut state)
    else {
        panic!("the first frame is due");
    };
    assert_eq!(frame.id, 1);
    assert_eq!(presentation.sequence, 1);
    assert_eq!(scheduler.poll(60, 1_010, None, &mut state), FramePoll::Nothing);
    assert_eq!(scheduler.timeout(60), 2_000_000);
    let formats = scheduler.hardware_event(
        HardwareEvent::Presented {
            frame_id: 1,
            at_ns: 100,
            monotonic_ns: Some(2_000),
            sequence: 4,
            scanout_status: DirectScanoutStatus::Active,
        },
        &config,
        110,
        2_010,
        &mut state,
    );
    assert!(!formats);
    assert_eq!(scheduler.repaint_at_ns, 100 + 6_000_000);
    assert_eq!(scheduler.predicted(9_999), 2_000 + 10_000_000);
    assert_eq!(
        scheduler.poll(6_000_099, 0, None, &mut state),
        FramePoll::Nothing
    );
    let FramePoll::Submit { frame, presentation } =
        scheduler.poll(6_000_100, 0, None, &mut state)
    else {
        panic!("the second frame is due");
    };
    assert_eq!(frame.id, 2);
    assert_eq!(presentation.callback_msec, (2_000 + 10_000_000) / 1_000_000);
}

#[test]
fn deferred_frames_are_presented_later() {
    let mut state = compositor();
    let config = OutputConfig::unspecified();
    let mut scheduler = FrameScheduler::new(output(100_000), 0);
    scheduler.poll(0, 0, None, &mut state);
    scheduler.hardware_event(
        HardwareEvent::FrameDeferred { frame_id: 1 },
        &config,
        1_000,
        0,
        &mut state,
    );
    assert_eq!(scheduler.frame_in_flight, None);
    assert_eq!(
        scheduler.poll(10_000_999, 0, None, &mut state),
        FramePoll::Nothing
    );
    let FramePoll::Idle(presentation) = scheduler.poll(10_001_000, 7_000_000, None, &mut state)
    else {
        panic!("an idle frame counts as presented");
    };
    assert_eq!(presentation.callback_msec, 7);
    assert_eq!(presentation.sequence, 2);
    assert_eq!(scheduler.repaint_at_ns, 11_001_000);
}

#[test]
fn sleeping_outputs_get_no_frames() {
    let mut state = compositor();
    let config = OutputConfig::unspecified();
    let mut scheduler = FrameScheduler::new(output(100_000), 0);
    scheduler.hardware_event(HardwareEvent::OutputDisconnected, &config, 0, 0, &mut state);
    assert_eq!(scheduler.poll(9, 0, None, &mut state), FramePoll::Nothing);
    assert!(scheduler.hardware_event(
        HardwareEvent::OutputChanged(output(60_000)),
        &config,
        10,
        0,
        &mut state,
    ));
    assert_eq!(
        state.output_mode().map(|mode| (mode.width, mode.height, mode.refresh)),
        Some((1280, 800, 60_000))
    );
    assert!(matches!(
        scheduler.poll(10, 0, None, &mut state),
        FramePoll::Submit { .. }
    ));
    scheduler.hardware_event(
        HardwareEvent::OutputPowerChanged { asleep: true },
        &config,
        20,
        0,
        &mut state,
    );
    assert_eq!(scheduler.poll(30, 0, None, &mut state), FramePoll::Nothing);
    scheduler.hardware_event(
        HardwareEvent::OutputPowerChanged { asleep: false },
        &config,
        40,
        0,
        &mut state,
    );
    assert!(matches!(
        scheduler.poll(40, 0, None, &mut state),
        FramePoll::Submit { .. }
    ));
    scheduler.hardware_event(
        HardwareEvent::Error("lost".into()),
        &config,
        50,
        0,
        &mut state,
    );
    assert_eq!(scheduler.repaint_at_ns, 50 + 16_666_666);
}

#[test]
fn commands_reach_the_hardware() {
    let mut control = HardwareControl::default();
    let mut scheduler = FrameScheduler::new(output(90_000), 0);
    let request = RefreshCycleOverride {
        screen: ScreenType::Internal,
        frames_per_second: 30,
        allow_refresh_switching: false,
        apply_frame_limiter: true,
    };
    assert_eq!(
        scheduler.route_command(Command::SetRefreshCycle(request), &mut control),
        None
    );
    assert_eq!(scheduler.limits.get(ScreenType::Internal), Some(33_333_333));
    assert_eq!(scheduler.limits.get(ScreenType::External), None);
    let power = DisplayPowerOperation {
        screen: ScreenType::External,
        sleep: true,
    };
    scheduler.route_command(Command::SetDisplayPower(power), &mut control);
    assert_eq!(control.sleep.get(ScreenType::External), Some(true));
    assert_eq!(
        scheduler.route_command(Command::UnsetLook, &mut control),
        Some(Command::UnsetLook)
    );
}

#[test]
fn xwayland_servers_start_and_stop() {
    let mut control = HardwareControl::default();
    let mut servers = XwaylandServers::new(1);
    servers.started(0);
    assert_eq!(
        servers.route_steam_request(
            SteamRuntimeRequest::CreateXwayland { identifier: 44 },
            &mut control
        ),
        Some(XwaylandStep::Start {
            server_id: 1,
            identifier: 44
        })
    );
    servers.started(1);
    let destroy = |server_id| SteamRuntimeRequest::DestroyXwayland { server_id };
    assert_eq!(
        servers.route_steam_request(destroy(0), &mut control),
        Some(XwaylandStep::RefuseRoot)
    );
    assert_eq!(
        servers.route_steam_request(destroy(1), &mut control),
        Some(XwaylandStep::Stop { server_id: 1 })
    );
    assert_eq!(
        servers.route_steam_request(destroy(1), &mut control),
        Some(XwaylandStep::Unknown { server_id: 1 })
    );
    assert_eq!(servers.running, [0]);
    assert_eq!(servers.next_server_id, 2);
    assert_eq!(control, HardwareControl::default());
}

#[test]
fn display_requests_of_steam_wait_for_the_hardware() {
    let mut control = HardwareControl::default();
    let mut servers = XwaylandServers::new(1);
    for request in [
        SteamRuntimeRequest::SetVrr { enabled: true },
        SteamRuntimeRequest::SetForceInternal { force: true },
        SteamRuntimeRequest::RescanDisplay,
        SteamRuntimeRequest::SetDynamicRefresh {
            screen: ScreenType::External,
            refresh_hz: 75,
        },
        SteamRuntimeRequest::SetCompositeForce { force: false },
    ] {
        assert_eq!(servers.route_steam_request(request, &mut control), None);
    }
    assert_eq!(control.vrr, Some(true));
    assert_eq!(control.force_internal, Some(true));
    assert!(control.rescan && control.force_modeset);
    assert_eq!(
        control.dynamic_refresh.get(ScreenType::External),
        (1 << 63) | 75
    );
    assert_eq!(control.composite_force, Some(false));
}

#[test]
fn input_goes_where_it_belongs() {
    let mut state = compositor();
    assert_eq!(
        route_input(&mut state, DeviceInput::PointerMotion),
        InputRoute::DeliverWithin {
            width: 1280,
            height: 720
        }
    );
    assert_eq!(
        route_input(&mut state, DeviceInput::TouchFrame),
        InputRoute::Deliver
    );
    assert_eq!(
        route_input(&mut state, DeviceInput::Unhandled),
        InputRoute::Ignore
    );
    let key = |keycode, pressed| DeviceInput::Key { keycode, pressed };
    state.vt_mut().enable_vt_switching();
    for keycode in [37, 64] {
        assert_eq!(
            route_input(&mut state, key(keycode, true)),
            InputRoute::Keyboard { kept: false }
        );
    }
    assert_eq!(
        route_input(&mut state, key(73, true)),
        InputRoute::Keyboard { kept: true }
    );
    assert_eq!(state.vt_mut().take_vt_switch(), Some(7));
    state.release_all_keys();
    assert_eq!(
        route_input(&mut state, key(73, false)),
        InputRoute::Keyboard { kept: false }
    );
    assert_eq!(event_time_ns(5), 5_000);
}
