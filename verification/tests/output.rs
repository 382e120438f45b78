use gamescope::output::{presentation_refresh_ns, LayerRenderElement, OutputConfig, OutputMode};
use gamescope::state::{x11_property_changes_input_mode, WindowProperty};
use gamescope::vt::{vt_from_pressed_evdev_keys, VtSwitcher};
use gamescope::window_policy::x11_window_identity_matches;

#[test]
fn output_mode_preserves_gamescope_millihertz_units() {
    let config = OutputConfig {
        width: 1920,
        height: 1080,
        refresh_millihz: 59_940,
    };
    let mode = config.mode();
    assert_eq!((mode.width, mode.height), (1920, 1080));
    assert_eq!(mode.refresh, 59_940);
}

#[test]
fn omitted_game_size_tracks_the_physical_output() {
    let config = OutputConfig::unspecified().resolved_for_output(2560, 1440);
    assert_eq!((config.width, config.height), (2560, 1440));

    let height_only = OutputConfig {
        width: 0,
        height: 900,
        refresh_millihz: 60_000,
    }
    .resolved_for_output(2560, 1440);
    assert_eq!((height_only.width, height_only.height), (1600, 900));
}

#[test]
fn blended_overlay_never_culls_the_game_below_it() {
    let claimed = || vec![(0, 0, 64, 64)];
    let blended = LayerRenderElement::new("opaque", true);
    assert!(blended.opaque_regions(claimed()).is_empty());

    let base = LayerRenderElement::new("opaque", false);
    assert_eq!(base.opaque_regions(claimed()).len(), 1);
    assert_eq!(*base.element(), "opaque");
}

#[test]
fn late_icccm_focus_metadata_forces_x11_reentry() {
    assert!(x11_property_changes_input_mode(WindowProperty::Hints));
    assert!(x11_property_changes_input_mode(WindowProperty::Protocols));
    assert!(!x11_property_changes_input_mode(WindowProperty::Title));
}

#[test]
fn x11_window_identity_is_independent_of_wrapper_liveness() {
    #[derive(Clone, Copy)]
    struct TrackedWindow {
        xwm_id: Option<u32>,
        window_id: u32,
        alive: bool,
    }

    let mut windows = vec![
        TrackedWindow {
            xwm_id: Some(1),
            window_id: 42,
            alive: false,
        },
        TrackedWindow {
            xwm_id: Some(1),
            window_id: 43,
            alive: true,
        },
        TrackedWindow {
            xwm_id: Some(2),
            window_id: 42,
            alive: true,
        },
    ];

    windows.retain(|candidate| {
        !x11_window_identity_matches(candidate.xwm_id, candidate.window_id, 1, 42)
    });

    assert_eq!(windows.len(), 2);
    assert!(windows.iter().all(|candidate| candidate.alive));
}

#[test]
fn ctrl_alt_function_keys_select_vts() {
    assert_eq!(vt_from_pressed_evdev_keys(&vec![29, 56, 65]), Some(7));
    assert_eq!(vt_from_pressed_evdev_keys(&vec![29, 65]), None);
    assert_eq!(vt_from_pressed_evdev_keys(&vec![97, 100, 88]), Some(12));

    let mut state = VtSwitcher::new();
    state.enable_vt_switching();
    assert!(!state.filter_vt_keycode(37, true));
    assert!(!state.filter_vt_keycode(64, true));
    assert!(state.filter_vt_keycode(73, true));
    assert_eq!(state.take_vt_switch(), Some(7));
    assert!(state.filter_vt_keycode(73, false));
}

#[test]
fn resolved_sizes_stay_as_they_are() {
    let config = OutputConfig::default().resolved_for_output(2560, 1440);
    assert_eq!((config.width, config.height), (1280, 720));
    assert_eq!(config.resolved_for_output(640, 480), config);
    let tall = OutputConfig {
        width: 0,
        height: i32::MAX,
        refresh_millihz: 60_000,
    };
    assert_eq!(tall.resolved_for_output(1, 1).width, 238_609_294);
    let negative = OutputConfig {
        width: 0,
        height: -9,
        refresh_millihz: 60_000,
    };
    assert_eq!(negative.resolved_for_output(1, 1).width, -16);
}

#[test]
fn presentation_interval_follows_the_mode() {
    let mode = OutputMode {
        width: 1,
        height: 1,
        refresh: 60_000,
    };
    assert_eq!(presentation_refresh_ns(Some(mode)), 16_666_666);
    assert_eq!(presentation_refresh_ns(None), 16_666_667);
}

#[test]
fn keys_pass_while_terminals_are_not_switched() {
    let mut state = VtSwitcher::new();
    assert!(!state.filter_vt_keycode(37, true));
    assert!(!state.filter_vt_keycode(64, true));
    assert!(!state.filter_vt_keycode(73, true));
    assert_eq!(state.take_vt_switch(), None);
}

#[test]
fn released_chords_do_not_stay_held() {
    let mut state = VtSwitcher::new();
    state.enable_vt_switching();
    state.filter_vt_keycode(37, true);
    state.filter_vt_keycode(64, true);
    state.release_all_keys();
    assert!(!state.filter_vt_keycode(73, true));
    assert!(!state.filter_vt_keycode(73, false));
    assert_eq!(state.take_vt_switch(), None);
}
