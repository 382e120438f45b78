use gamescope::control::{DisplayPowerOperation, RefreshCycleOverride, ScreenType};
use gamescope::drm::{
    pack_refresh, unpack_refresh, CursorLayer, DeviceChange, DirectScanoutStatus, HardwareControl,
    HardwareFrame,
};
use gamescope::drm_worker::{
    draw_order, page_flip, scanout_formats, DrawItem, DrmRuntime, DynamicRefresh, FlipMetadata,
    Format, FrameStep, FrameToken, HardwareConfig, HardwareEvent, HardwareFailure,
    InitializedOutput, ModeSwitch, PrimaryPlane, RenderPlan, RescanPlan,
};
use gamescope::edid::parse_edid_identity;
use gamescope::modes::{
    connector_priority, connector_screen_type, select_mode, valid_refresh_rates, Connector,
    ConnectorInterface, DisplayMode,
};
use gamescope::output::OutputConfig;
use gamescope::window_policy::RenderLayer;

fn frame(id: u64) -> HardwareFrame {
    HardwareFrame {
        id,
        layers: Vec::new(),
        cursor: None,
    }
}

#[test]
fn frame_mailbox_is_bounded_and_latest_wins() {
    let mut control = HardwareControl::default();
    assert_eq!(control.submit(frame(1)), None);
    assert_eq!(control.submit(frame(2)), Some(1));
    assert_eq!(
        control.latest_frame.as_ref().map(|frame| frame.id),
        Some(2)
    );
}

#[test]
fn refresh_requests_remain_isolated_per_screen() {
    let mut control = HardwareControl::default();
    let request = RefreshCycleOverride {
        screen: ScreenType::Internal,
        frames_per_second: 40,
        allow_refresh_switching: true,
        apply_frame_limiter: false,
    };
    control.set_refresh_cycle(request);
    let internal = control.refresh.get(ScreenType::Internal);
    let external = control.refresh.get(ScreenType::External);
    assert_eq!(
        unpack_refresh(ScreenType::Internal, internal),
        Some(request)
    );
    assert_eq!(external, 0);
    assert_eq!(pack_refresh(request), internal);
}

#[test]
fn connector_priority_matches_gamescope_wildcard_fallback() {
    let priorities = ["DP-2".to_owned(), "*".to_owned(), "HDMI-A-1".to_owned()];
    assert_eq!(connector_priority(&priorities, "DP-2"), 0);
    assert_eq!(connector_priority(&priorities, "DP-1"), 1);
    assert_eq!(connector_priority(&priorities, "HDMI-A-1"), 2);
}

#[test]
fn edid_identity_decodes_pnp_and_display_name() {
    let mut edid = vec![0_u8; 128];
    edid[..8].copy_from_slice(&[0x00, 0xff, 0xff, 0xff, 0xff, 0xff, 0xff, 0x00]);
    edid[8..10].copy_from_slice(&0x0443_u16.to_be_bytes());
    edid[54..59].copy_from_slice(&[0, 0, 0, 0xfc, 0]);
    edid[59..69].copy_from_slice(b"Steam Deck");
    assert_eq!(
        parse_edid_identity(&edid),
        Some(("ABC".into(), "Steam Deck".into()))
    );
}

#[test]
fn edid_without_a_readable_name_gives_the_product_code() {
    let mut edid = vec![0_u8; 128];
    edid[..8].copy_from_slice(&[0x00, 0xff, 0xff, 0xff, 0xff, 0xff, 0xff, 0x00]);
    edid[10..12].copy_from_slice(&0x0a1f_u16.to_le_bytes());
    assert_eq!(
        parse_edid_identity(&edid),
        Some(("@@@".into(), "0a1f".into()))
    );
    edid[72..77].copy_from_slice(&[0, 0, 0, 0xfc, 0]);
    edid[77..79].copy_from_slice(b" \n");
    assert_eq!(
        parse_edid_identity(&edid).map(|identity| identity.1),
        Some("0a1f".into())
    );
    edid[77] = 0xff;
    assert_eq!(
        parse_edid_identity(&edid).map(|identity| identity.1),
        Some("0a1f".into())
    );
    edid[77..90].copy_from_slice(b"\n Deck 2\r\n\0\0\0");
    assert_eq!(
        parse_edid_identity(&edid).map(|identity| identity.1),
        Some("Deck 2".into())
    );
    assert_eq!(parse_edid_identity(&edid[..127]), None);
    edid[7] = 1;
    assert_eq!(parse_edid_identity(&edid), None);
}

fn mode(width: u16, height: u16, vrefresh: u32) -> DisplayMode {
    DisplayMode {
        width,
        height,
        vrefresh,
        refresh_millihz: vrefresh as i32 * 1_000,
        timing: 0,
    }
}

#[test]
fn modes_are_selected_by_size_and_rounded_rate() {
    let modes = [
        mode(4096, 2160, 60),
        mode(3840, 2160, 60),
        mode(1280, 800, 90),
        mode(1280, 800, 60),
    ];
    assert_eq!(select_mode(&modes, None, None, None), Some(1));
    assert_eq!(select_mode(&modes, Some(1280), Some(800), None), Some(2));
    assert_eq!(select_mode(&modes, None, Some(800), Some(59_940)), Some(3));
    assert_eq!(select_mode(&modes, None, Some(800), Some(59_500)), None);
    assert_eq!(select_mode(&modes, Some(4096), None, None), None);
    assert_eq!(select_mode(&modes, None, None, Some(-2_000)), Some(1));
}

#[test]
fn refresh_rates_are_sorted_and_listed_once() {
    let modes = [
        mode(1280, 800, 90),
        mode(1280, 800, 40),
        mode(640, 480, 75),
        mode(1280, 800, 60),
        mode(1280, 800, 40),
    ];
    assert_eq!(
        valid_refresh_rates(&modes, &modes[0], ScreenType::Internal),
        [40, 60, 90]
    );
    assert_eq!(
        valid_refresh_rates(&modes, &modes[3], ScreenType::External),
        [60]
    );
    assert_eq!(
        connector_screen_type(ConnectorInterface::Lvds),
        ScreenType::Internal
    );
    assert_eq!(
        connector_screen_type(ConnectorInterface::Pluggable),
        ScreenType::External
    );
}

fn config() -> HardwareConfig {
    HardwareConfig {
        logical_output: OutputConfig::unspecified(),
        mode_width: None,
        mode_height: None,
        mode_refresh_millihz: None,
        direct_scanout: true,
        adaptive_sync: false,
        connector_priorities: vec!["DP-2".into()],
    }
}

fn connector(name: &str, handle: u32, interface: ConnectorInterface) -> Connector {
    Connector {
        name: name.into(),
        handle,
        crtc: handle + 10,
        interface,
        connected: true,
        modes: vec![mode(1280, 800, 60), mode(1280, 800, 40), mode(1280, 800, 90)],
    }
}

fn format(code: u32) -> Format {
    Format { code, modifier: 0 }
}

fn initialized() -> InitializedOutput {
    InitializedOutput {
        device_id: 226,
        edid: None,
        vrr_capable: true,
        vrr_enabled: false,
        render_formats: vec![format(1), format(2)],
        plane_formats: vec![format(2), format(3), format(2)],
    }
}

fn driving(connector: &Connector) -> DrmRuntime {
    let mut runtime = DrmRuntime::new(config());
    let index = runtime.initial_mode(connector).expect("usable mode");
    runtime.output_initialized(connector, index, initialized());
    runtime
}

fn active_runtime() -> DrmRuntime {
    driving(&connector("eDP-1", 1, ConnectorInterface::EmbeddedDisplayPort))
}

#[test]
fn preferred_connectors_are_used_and_kept() {
    let mut runtime = DrmRuntime::new(config());
    let connectors = vec![
        connector("HDMI-A-1", 1, ConnectorInterface::Pluggable),
        connector("DP-2", 2, ConnectorInterface::Pluggable),
        connector("DP-1", 3, ConnectorInterface::Pluggable),
    ];
    assert_eq!(
        runtime.rescan_outputs(&connectors, false),
        RescanPlan::Replace {
            clear: false,
            initialize: Some(1)
        }
    );
    let event = runtime.output_initialized(&connectors[1], 0, initialized());
    let HardwareEvent::OutputChanged(info) = event else {
        panic!("unexpected event: {event:?}");
    };
    assert_eq!(info.connector, "DP-2");
    assert_eq!((info.display_make, info.display_model), ("Unknown".into(), "DP-2".into()));
    assert_eq!(info.valid_refresh_rates_hz, [60]);
    assert_eq!(info.scanout_formats, [format(2)]);
    assert_eq!(runtime.rescan_outputs(&connectors, false), RescanPlan::Keep);
    let mut swapped = vec![connector("DP-2", 2, ConnectorInterface::Pluggable)];
    swapped[0].modes[0].timing = 1;
    assert_eq!(
        driving(&connectors[1]).rescan_outputs(&swapped, false),
        RescanPlan::Replace {
            clear: true,
            initialize: Some(0)
        }
    );
    assert_eq!(
        runtime.rescan_outputs(&connectors, true),
        RescanPlan::Replace {
            clear: true,
            initialize: Some(1)
        }
    );
}

#[test]
fn unlisted_connectors_go_by_name() {
    let mut runtime = DrmRuntime::new(config());
    let mut connectors = vec![
        connector("HDMI-A-1", 1, ConnectorInterface::Pluggable),
        connector("DP-11", 2, ConnectorInterface::Pluggable),
        connector("DP-1", 3, ConnectorInterface::Pluggable),
    ];
    assert_eq!(
        runtime.rescan_outputs(&connectors, false),
        RescanPlan::Replace {
            clear: false,
            initialize: Some(2)
        }
    );
    connectors[2].connected = false;
    assert_eq!(
        runtime.rescan_outputs(&connectors, false),
        RescanPlan::Replace {
            clear: false,
            initialize: Some(1)
        }
    );
    let mut control = HardwareControl::default();
    control.set_force_internal(true);
    assert_eq!(runtime.rescan_step(&mut control), Some(false));
    assert_eq!(
        runtime.rescan_outputs(&connectors, false),
        RescanPlan::Replace {
            clear: false,
            initialize: None
        }
    );
}

#[test]
fn rescans_are_asked_for_once() {
    let mut runtime = DrmRuntime::new(config());
    let mut control = HardwareControl::default();
    assert_eq!(runtime.rescan_step(&mut control), None);
    control.nudge_modeset();
    assert_eq!(runtime.rescan_step(&mut control), Some(true));
    assert_eq!(runtime.rescan_step(&mut control), None);
    control.device_changed(DeviceChange::Changed);
    assert_eq!(runtime.rescan_step(&mut control), Some(false));
    control.device_changed(DeviceChange::Removed);
    assert_eq!(runtime.pause_step(&control), Some(true));
    assert_eq!(runtime.pause_step(&control), None);
    control.device_changed(DeviceChange::Added);
    assert_eq!(runtime.pause_step(&control), Some(false));
    assert_eq!(runtime.rescan_step(&mut control), Some(false));
}

#[test]
fn an_unchanged_vrr_wish_is_ignored() {
    let mut runtime = active_runtime();
    let mut control = HardwareControl::default();
    control.set_vrr(false);
    assert_eq!(runtime.vrr_step(&mut control), None);
    control.set_vrr(true);
    assert_eq!(runtime.vrr_step(&mut control), Some(true));
    assert_eq!(runtime.vrr_step(&mut control), None);
    control.set_vrr(true);
    assert_eq!(runtime.vrr_step(&mut control), None);
    assert_eq!(runtime.vrr_set(false), None);
    let Some(HardwareEvent::OutputChanged(info)) = runtime.vrr_set(true) else {
        panic!("a change of use is told");
    };
    assert!(info.vrr_enabled);
    assert_eq!(runtime.vrr_set(true), None);
    assert!(runtime.wants_initial_vrr(true));
    assert!(!runtime.wants_initial_vrr(false));
}

#[test]
fn refresh_requests_pick_the_fastest_multiple() {
    let mut runtime = active_runtime();
    let mut control = HardwareControl::default();
    let mut request = RefreshCycleOverride {
        screen: ScreenType::Internal,
        frames_per_second: 45,
        allow_refresh_switching: true,
        apply_frame_limiter: false,
    };
    control.set_refresh_cycle(request);
    assert_eq!(
        runtime.refresh_step(&control),
        Some(ModeSwitch {
            index: 2,
            failure: HardwareFailure::SwitchForFrames {
                frames_per_second: 45
            },
        })
    );
    assert_eq!(runtime.refresh_step(&control), None);
    let Some(HardwareEvent::OutputChanged(info)) = runtime.mode_switched(2) else {
        panic!("a switch is told");
    };
    assert_eq!(info.refresh_millihz, 90_000);
    request.allow_refresh_switching = false;
    control.set_refresh_cycle(request);
    assert_eq!(
        runtime.refresh_step(&control).map(|switch| switch.index),
        Some(0)
    );
    request.screen = ScreenType::External;
    control.set_refresh_cycle(request);
    assert_eq!(runtime.refresh_step(&control), None);
}

#[test]
fn dynamic_refresh_needs_a_mode_of_the_same_size() {
    let mut runtime = active_runtime();
    let mut control = HardwareControl::default();
    assert_eq!(
        runtime.dynamic_refresh_step(&control),
        DynamicRefresh::Nothing
    );
    control.set_dynamic_refresh(ScreenType::Internal, 75);
    assert_eq!(
        runtime.dynamic_refresh_step(&control),
        DynamicRefresh::Missing { refresh_hz: 75 }
    );
    assert_eq!(
        runtime.dynamic_refresh_step(&control),
        DynamicRefresh::Nothing
    );
    control.set_dynamic_refresh(ScreenType::Internal, 40);
    assert_eq!(
        runtime.dynamic_refresh_step(&control),
        DynamicRefresh::Switch(ModeSwitch {
            index: 1,
            failure: HardwareFailure::SwitchToRate { hz: 40 },
        })
    );
    control.set_dynamic_refresh(ScreenType::Internal, 0);
    assert_eq!(
        runtime.dynamic_refresh_step(&control),
        DynamicRefresh::Nothing
    );
}

#[test]
fn displays_sleep_and_wake_once() {
    let mut runtime = active_runtime();
    let mut control = HardwareControl::default();
    assert_eq!(runtime.power_step(&control), None);
    control.set_display_power(DisplayPowerOperation {
        screen: ScreenType::Internal,
        sleep: true,
    });
    assert_eq!(runtime.power_step(&control), Some(true));
    assert_eq!(
        runtime.power_set(true),
        Some(HardwareEvent::OutputPowerChanged { asleep: true })
    );
    assert_eq!(runtime.power_step(&control), None);
    assert_eq!(runtime.render_plan(&frame(1), true), RenderPlan::Defer);
}

fn layer(force_blend: bool, opacity: u32) -> RenderLayer {
    RenderLayer {
        surface: 4,
        opacity,
        force_blend,
    }
}

#[test]
fn blended_layers_and_requests_force_composition() {
    let mut runtime = active_runtime();
    let plain = HardwareFrame {
        id: 3,
        layers: vec![layer(false, u32::MAX)],
        cursor: None,
    };
    let blended = HardwareFrame {
        id: 4,
        layers: vec![layer(false, u32::MAX), layer(true, 9)],
        cursor: None,
    };
    assert_eq!(
        runtime.render_plan(&plain, true),
        RenderPlan::Render { direct: true }
    );
    assert_eq!(
        runtime.render_plan(&blended, true),
        RenderPlan::Render { direct: false }
    );
    assert_eq!(runtime.render_plan(&plain, false), RenderPlan::Defer);
    assert_eq!(
        runtime.frame_rendered(&plain, false, PrimaryPlane::ClientBuffer),
        FrameStep::Queue(FrameToken {
            id: 3,
            scanout_status: DirectScanoutStatus::Active,
        })
    );
    assert_eq!(
        runtime.frame_rendered(&plain, true, PrimaryPlane::ClientBuffer),
        FrameStep::Defer
    );
    let mut control = HardwareControl::default();
    control.set_composite_force(true);
    runtime.composite_step(&control);
    let FrameStep::Queue(token) =
        runtime.frame_rendered(&plain, false, PrimaryPlane::TestFailed)
    else {
        panic!("a frame with contents is queued");
    };
    assert_eq!(token.scanout_status.code(), 4);
    control.set_composite_force(false);
    runtime.composite_step(&control);
    assert_eq!(
        runtime.frame_rendered(&plain, false, PrimaryPlane::TestFailed),
        FrameStep::Queue(FrameToken {
            id: 3,
            scanout_status: DirectScanoutStatus::TestFailed,
        })
    );
}

#[test]
fn scanout_codes_are_those_that_steam_reads() {
    assert_eq!(DirectScanoutStatus::Active.code(), 0);
    assert_eq!(DirectScanoutStatus::Unavailable.code(), 1);
    assert_eq!(DirectScanoutStatus::UnsupportedFormat.code(), 2);
    assert_eq!(DirectScanoutStatus::TestFailed.code(), 3);
    assert_eq!(DirectScanoutStatus::CompositionRequired.code(), 4);
}

#[test]
fn frames_wait_while_the_device_is_paused() {
    let mut runtime = active_runtime();
    let mut control = HardwareControl::default();
    control.pause();
    runtime.pause_step(&control);
    control.submit(frame(8));
    assert_eq!(runtime.frame_step(&mut control), None);
    control.resume();
    runtime.pause_step(&control);
    assert_eq!(runtime.frame_step(&mut control), Some(frame(8)));
    assert_eq!(runtime.frame_step(&mut control), None);
}

#[test]
fn flips_are_reported_with_their_metadata() {
    let runtime = active_runtime();
    assert!(runtime.drives(11));
    assert!(!runtime.drives(12));
    let token = FrameToken {
        id: 5,
        scanout_status: DirectScanoutStatus::Active,
    };
    assert_eq!(
        page_flip(token, 100, None),
        HardwareEvent::Presented {
            frame_id: 5,
            at_ns: 100,
            monotonic_ns: None,
            sequence: 0,
            scanout_status: DirectScanoutStatus::Active,
        }
    );
    let metadata = FlipMetadata {
        monotonic_ns: Some(90),
        sequence: 7,
    };
    assert_eq!(
        page_flip(token, 100, Some(metadata)),
        HardwareEvent::Presented {
            frame_id: 5,
            at_ns: 100,
            monotonic_ns: Some(90),
            sequence: 7,
            scanout_status: DirectScanoutStatus::Active,
        }
    );
}

#[test]
fn layers_are_drawn_front_to_back() {
    let lower = layer(false, u32::MAX);
    let upper = layer(true, 7);
    assert_eq!(
        draw_order(&vec![lower, upper], true),
        [DrawItem::Cursor, DrawItem::Layer(upper), DrawItem::Layer(lower)]
    );
    assert_eq!(draw_order(&vec![lower], false), [DrawItem::Layer(lower)]);
    let cursor = CursorLayer {
        surface: 1,
        x: 2.5_f64.to_bits(),
        y: 0,
    };
    assert_eq!(f64::from_bits(cursor.x), 2.5);
}

#[test]
fn formats_are_common_to_planes_and_renderer() {
    assert_eq!(
        scanout_formats(
            &vec![format(3), format(1), format(3), format(4)],
            &vec![format(1), format(2), format(3)]
        ),
        [format(3), format(1)]
    );
}

#[test]
fn failures_name_their_cause() {
    assert_eq!(
        HardwareFailure::Preparation { frame: 12 }.text("no buffer"),
        "DRM frame 12 preparation failed: no buffer"
    );
    assert_eq!(
        HardwareFailure::VariableRefresh { enabled: true }.text("EINVAL"),
        "failed to set DRM VRR to true: EINVAL"
    );
    assert_eq!(
        HardwareFailure::MissingMode { refresh_hz: 75 }.text(""),
        "DRM output has no same-resolution 75 Hz mode"
    );
    assert_eq!(
        HardwareFailure::SwitchToRate { hz: 40 }.text("busy"),
        "failed to switch DRM output to 40 Hz: busy"
    );
    assert_eq!(
        HardwareFailure::Rescan.text("gone"),
        "failed to rescan DRM connectors: gone"
    );
}
