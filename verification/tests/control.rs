use gamescope::control::{
    decode_display_sleep, decode_refresh_cycle_override, feature_advertisement, Feature,
    PerformanceRequests, ScreenType, DISPLAY_SLEEP, DISPLAY_TYPE_EXTERNAL, DISPLAY_TYPE_INTERNAL,
    DISPLAY_WAKE, TARGET_REFRESH_ALLOW_SWITCHING, TARGET_REFRESH_INTERNAL_DISPLAY,
    TARGET_REFRESH_ONLY_CHANGE_REFRESH_RATE,
};

#[test]
fn feature_list_is_terminated_by_done() {
    let advertisement = feature_advertisement();
    assert_eq!(advertisement.len(), 8);
    assert_eq!(advertisement.last().unwrap().feature, Feature::Done);
    assert_eq!(advertisement.last().unwrap().version, 0);
}

#[test]
fn refresh_flags_map_to_existing_handler_arguments() {
    let decoded = decode_refresh_cycle_override(
        40,
        TARGET_REFRESH_INTERNAL_DISPLAY
            | TARGET_REFRESH_ALLOW_SWITCHING
            | TARGET_REFRESH_ONLY_CHANGE_REFRESH_RATE,
    );
    assert_eq!(decoded.screen, ScreenType::Internal);
    assert!(decoded.allow_refresh_switching);
    assert!(!decoded.apply_frame_limiter);

    assert_eq!(
        decode_refresh_cycle_override(0, 0).screen,
        ScreenType::External
    );
}

#[test]
fn sleep_precedes_wake_when_both_conflicting_flags_are_set() {
    let operations = decode_display_sleep(
        DISPLAY_TYPE_INTERNAL | DISPLAY_TYPE_EXTERNAL,
        DISPLAY_SLEEP | DISPLAY_WAKE,
    );
    assert_eq!(operations.len(), 2);
    assert_eq!(operations[0].screen, ScreenType::External);
    assert!(operations.iter().all(|operation| operation.sleep));
}

#[test]
fn performance_requests_fan_out_once() {
    let mut requests = PerformanceRequests::default();
    requests.request(10, 769);
    requests.request(11, 769);
    requests.request(11, 769);

    let events = requests.app_presented(769, 0x0123_4567_89ab_cdef);
    assert_eq!(events.len(), 3);
    assert_eq!(events[0].frametime_ns_low, 0x89ab_cdef);
    assert_eq!(events[0].frametime_ns_high, 0x0123_4567);
    assert!(requests.app_presented(769, 1).is_empty());
}

#[test]
fn destroyed_controls_are_removed_from_pending_queries() {
    let mut requests = PerformanceRequests::default();
    requests.request(10, 1);
    requests.request(11, 1);
    requests.remove_control(10);
    let events = requests.app_presented(1, 2);
    assert_eq!(events.len(), 1);
    assert_eq!(events[0].control_id, 11);
}

#[test]
fn requests_for_other_apps_stay() {
    let mut requests = PerformanceRequests::default();
    requests.request(10, 1);
    requests.request(11, 2);
    requests.request(12, 1);
    let events = requests.app_presented(1, 5);
    assert_eq!(events.len(), 2);
    assert_eq!((events[0].control_id, events[1].control_id), (10, 12));
    assert_eq!(events[0].app_id, 1);
    assert_eq!(requests.app_presented(2, 5).len(), 1);
}

#[test]
fn display_sleep_names_screens_and_needs_a_direction() {
    assert!(decode_display_sleep(DISPLAY_TYPE_INTERNAL, 0).is_empty());
    assert!(decode_display_sleep(0, DISPLAY_SLEEP).is_empty());
    let wake = decode_display_sleep(DISPLAY_TYPE_INTERNAL, DISPLAY_WAKE);
    assert_eq!(wake.len(), 1);
    assert_eq!(wake[0].screen, ScreenType::Internal);
    assert!(!wake[0].sleep);
}

#[test]
fn features_have_protocol_numbers() {
    let codes: Vec<u32> = feature_advertisement()
        .iter()
        .map(|support| support.feature.code())
        .collect();
    assert_eq!(codes, [1, 2, 3, 4, 5, 6, 7, 0]);
    let limited = decode_refresh_cycle_override(60, TARGET_REFRESH_INTERNAL_DISPLAY);
    assert!(limited.apply_frame_limiter);
    assert!(!limited.allow_refresh_switching);
    assert_eq!(limited.frames_per_second, 60);
}
