use gamescope::environment::{
    configure_child_environment, EnvironmentChange, LimiterFileSearch, VariableValue,
};
use gamescope::options::{
    Argument, BackendChoice, DeviceError, Options, OptionsError, RateReading,
};
use gamescope::output::OutputConfig;
use gamescope::protocol::ServerConfig;
use gamescope::state::State;
use gamescope::steam::{COMMON_COMPAT_ENV, STEAM_COMPAT_ENV};

fn argument(text: &str) -> Argument {
    let rate = match text.parse::<f64>() {
        Ok(hz) => {
            let millihz = (hz * 1000.0).round();
            if millihz.is_finite() && (1.0..=f64::from(i32::MAX)).contains(&millihz) {
                RateReading::Millihertz(millihz as i32)
            } else {
                RateReading::OutOfRange
            }
        }
        Err(_) => RateReading::NotANumber,
    };
    Argument {
        text: text.into(),
        rate,
    }
}

fn parse(texts: &[&str]) -> Result<Options, OptionsError> {
    Options::parse_from(&texts.iter().map(|text| argument(text)).collect())
}

#[test]
fn steam_and_multi_xwayland_options_are_not_noops() {
    let options = parse(&["--steam", "--xwayland-count", "3", "--expose-wayland"])
        .expect("valid Steam options");
    assert!(options.steam);
    assert!(options.expose_wayland);
    assert_eq!(options.xwayland_count, 3);
}

#[test]
fn no_xwayland_is_equivalent_to_zero_servers() {
    let options = parse(&["--no-xwayland"]).expect("valid no-Xwayland option");
    assert_eq!(options.xwayland_count, 0);
}

#[test]
fn omitted_game_size_is_left_for_the_backend_to_resolve() {
    let options = parse(&[]).expect("default options");
    assert_eq!((options.output.width, options.output.height), (0, 0));
    let mode = options.output.resolved_for_output(2560, 1440).mode();
    assert_eq!((mode.width, mode.height), (2560, 1440));
}

#[test]
fn width_without_height_matches_gamescope_rejection() {
    let error = parse(&["-w", "1920"]).expect_err("-w without -h must fail");
    assert!(error.text().contains("cannot specify -w without -h"));
}

#[test]
fn drm_options_preserve_connector_order_and_atomic_features() {
    let options = parse(&[
        "--drm",
        "-O",
        "DP-2,*,HDMI-A-1",
        "--adaptive-sync",
        "--disable-direct-scanout",
    ])
    .expect("valid DRM options");
    assert_eq!(options.backend, BackendChoice::Drm);
    assert_eq!(options.connector_priorities, ["DP-2", "*", "HDMI-A-1"]);
    assert!(options.adaptive_sync);
    assert!(!options.direct_scanout);
}

#[test]
fn every_option_has_its_effect() {
    let options = parse(&[
        "--nested-width", "1280", "-h", "+800", "-W", "2560", "--output-height", "1600", "-r",
        "59.94", "--output-refresh", "90", "--socket", "wl", "-b", "-f", "--backend", "winit",
        "--keep-alive", "-O", ",A,,B,",
    ])
    .expect("valid options");
    assert_eq!(
        options.output,
        OutputConfig {
            width: 1280,
            height: 800,
            refresh_millihz: 59_940,
        }
    );
    assert_eq!(options.window_width, Some(2560));
    assert_eq!(options.window_height, Some(1600));
    assert_eq!(options.output_refresh_millihz, Some(90_000));
    assert_eq!(options.socket.as_deref(), Some("wl"));
    assert!(options.borderless && options.fullscreen && options.keep_alive);
    assert_eq!(options.backend, BackendChoice::Nested);
    assert_eq!(options.connector_priorities, ["A", "B"]);
    let options = parse(&["--drm-device", "/dev/dri/card1"]).expect("device");
    assert_eq!(options.backend, BackendChoice::Drm);
    assert_eq!(options.drm_device.as_deref(), Some("/dev/dri/card1"));
}

#[test]
fn what_follows_the_separator_is_the_command() {
    let options = parse(&["-e", "--", "game", "--steam", "--"]).expect("command");
    assert_eq!(options.command, ["game", "--steam", "--"]);
    assert!(options.steam);
}

#[test]
fn wrong_command_lines_are_explained() {
    let told = |texts: &[&str]| parse(texts).expect_err("wrong").text();
    assert_eq!(told(&["--frobnicate"]), "unknown option: --frobnicate");
    assert_eq!(told(&["-w"]), "-w requires a value");
    assert_eq!(told(&["-w", "wide"]), "invalid value for -w");
    assert_eq!(told(&["--output-width", "-1"]), "invalid value for --output-width");
    assert_eq!(told(&["-r", "fast"]), "invalid value for -r");
    assert_eq!(told(&["-r", "0"]), "refresh rate must be positive and finite");
    assert_eq!(
        told(&["--backend", "sd\"l"]),
        "invalid backend \"sd\\\"l\"; expected auto, nested, or drm"
    );
    assert_eq!(
        told(&["-w", "-1", "-h", "5"]),
        "game dimensions cannot be negative"
    );
    assert_eq!(told(&["-W", "5"]), "cannot specify -W without -H");
    assert_eq!(told(&["-H", "0"]), "output dimensions must be positive");
    assert!(told(&["--help", "--frobnicate"]).starts_with("gamescope-rs [--backend"));
    assert_eq!(parse(&["--help"]), Err(OptionsError::Help));
    let negative = vec![
        argument("-r"),
        Argument {
            text: "-5".into(),
            rate: RateReading::Millihertz(-5),
        },
    ];
    assert_eq!(
        Options::parse_from(&negative),
        Err(OptionsError::RateNotPositive)
    );
}

#[test]
fn backends_are_selected_by_options_then_environment() {
    let options = parse(&[]).expect("default options");
    assert_eq!(
        options.selected_backend(None, false, false),
        Ok(BackendChoice::Drm)
    );
    assert_eq!(
        options.selected_backend(None, true, false),
        Ok(BackendChoice::Nested)
    );
    assert_eq!(
        options.selected_backend(Some("kms"), true, true),
        Ok(BackendChoice::Drm)
    );
    assert_eq!(
        options.selected_backend(Some("x"), true, true),
        Err(OptionsError::InvalidBackend("x".into()))
    );
    for (wayland, x11, choice) in [
        (false, false, BackendChoice::Drm),
        (true, false, BackendChoice::Nested),
        (false, true, BackendChoice::Nested),
    ] {
        assert_eq!(
            options.selected_backend(Some("auto"), wayland, x11),
            Ok(choice)
        );
    }
    let device = parse(&["--drm-device", "/dev/dri/card1"]).expect("device");
    assert_eq!(
        device.selected_backend(Some("auto"), true, true),
        Ok(BackendChoice::Drm)
    );
    let nested = parse(&["-n"]).expect("nested");
    assert_eq!(
        nested.selected_backend(Some("kms"), false, false),
        Ok(BackendChoice::Nested)
    );
}

#[test]
fn nested_windows_have_a_default_size() {
    assert_eq!(parse(&[]).expect("defaults").window_size(), (1280, 720));
    assert_eq!(
        parse(&["-H", "900"]).expect("height").window_size(),
        (1600, 900)
    );
    let options = parse(&["-H", "4000000000"]).expect("height");
    assert_eq!(options.window_size(), (477_218_588, 4_000_000_000));
    let options = parse(&["--xwayland-count", "2"]).expect("count");
    assert!(!options.command_is_due(true, 1));
    assert!(options.command_is_due(true, 2));
    assert!(!options.command_is_due(false, 2));
}

fn set(name: &str, value: &str) -> EnvironmentChange {
    EnvironmentChange {
        name: name.into(),
        value: VariableValue::Text(value.into()),
    }
}

fn unset(name: &str) -> EnvironmentChange {
    EnvironmentChange {
        name: name.into(),
        value: VariableValue::Unset,
    }
}

#[test]
fn the_command_finds_its_displays() {
    let mut state =
        State::new_with_server_config(&OutputConfig::default(), true, &ServerConfig::default());
    state.register_xwayland(1, 0, 4);
    state.register_xwayland(2, 1, 5);
    state.register_xwayland(3, 2, 7);
    let options = parse(&["-e", "--xwayland-count", "3"]).expect("Steam options");
    let changes = configure_child_environment(&options, &state, "gamescope-0");
    assert_eq!(changes[0], set("GAMESCOPE_WAYLAND_DISPLAY", "gamescope-0"));
    assert_eq!(changes[2].value, VariableValue::LimiterFile);
    assert_eq!(changes[3], unset("ENABLE_VKBASALT"));
    for (name, value) in COMMON_COMPAT_ENV.iter().chain(STEAM_COMPAT_ENV.iter()) {
        assert!(changes.contains(&set(name, value)));
    }
    assert!(changes.contains(&set("STEAM_MULTIPLE_XWAYLANDS", "1")));
    assert!(changes.contains(&unset("WAYLAND_DISPLAY")));
    assert!(changes.contains(&set("XDG_SESSION_TYPE", "x11")));
    let tail = &changes[changes.len() - 3..];
    assert_eq!(tail[0], set("STEAM_GAME_DISPLAY_0", ":5"));
    assert_eq!(tail[1], set("STEAM_GAME_DISPLAY_1", ":7"));
    assert_eq!(tail[2], set("DISPLAY", ":4"));
}

#[test]
fn a_command_without_xwayland_uses_wayland() {
    let state =
        State::new_with_server_config(&OutputConfig::default(), false, &ServerConfig::default());
    let options = parse(&["--no-xwayland"]).expect("options");
    let changes = configure_child_environment(&options, &state, "wl");
    assert_eq!(
        changes[changes.len() - 2..],
        [set("WAYLAND_DISPLAY", "wl"), set("XDG_SESSION_TYPE", "wayland")]
    );
    assert_eq!(changes.len(), 6 + COMMON_COMPAT_ENV.len() + 2);
}

#[test]
fn limiter_files_are_numbered() {
    let mut search = LimiterFileSearch::new(77);
    assert_eq!(search.next_name().as_deref(), Some("gamescope-limiter-77-0"));
    assert_eq!(search.next_name().as_deref(), Some("gamescope-limiter-77-1"));
    for _ in 2..32 {
        assert!(search.next_name().is_some());
    }
    assert_eq!(search.next_name(), None);
}

#[test]
fn only_a_device_that_was_asked_for_is_binding() {
    let unset = parse(&[]).expect("options");
    assert_eq!(unset.select_device(Some(2), 3), Ok(2));
    assert_eq!(unset.select_device(None, 3), Ok(0));
    assert_eq!(unset.select_device(None, 0), Err(DeviceError::NoDevice));
    let asked = parse(&["--drm-device", "/dev/dri/card7"]).expect("options");
    assert_eq!(asked.select_device(Some(1), 2), Ok(1));
    assert_eq!(asked.select_device(None, 2), Err(DeviceError::NotAvailable));
    assert_eq!(asked.select_device(None, 0), Err(DeviceError::NoDevice));
    assert_eq!(
        DeviceError::NotAvailable.text("/dev/dri/card7", "seat0"),
        "requested DRM device /dev/dri/card7 is not available on seat0"
    );
    assert_eq!(
        DeviceError::NoDevice.text("", "seat0"),
        "no DRM primary nodes found on seat0"
    );
}
