use gamescope::swapchain::{
    Chromaticity, HdrMetadata, PastPresentTiming, SetHdrMetadataResult, SwapchainFeedback,
    SwapchainState,
};

fn feedback() -> SwapchainFeedback {
    SwapchainFeedback {
        image_count: 3,
        vk_format: 64,
        vk_colorspace: 1_000_104_002,
        vk_composite_alpha: 1,
        vk_pre_transform: 1,
        vk_clipped: 1,
        vk_engine_name: "test-engine".into(),
        hdr_metadata: None,
    }
}

fn valid_hdr() -> HdrMetadata {
    HdrMetadata {
        display_primary_red: Chromaticity {
            x: 35_400,
            y: 14_600,
        },
        display_primary_green: Chromaticity {
            x: 8_500,
            y: 39_850,
        },
        display_primary_blue: Chromaticity { x: 6_550, y: 2_300 },
        white_point: Chromaticity {
            x: 15_635,
            y: 16_450,
        },
        max_display_mastering_luminance: 1_000,
        min_display_mastering_luminance: 1,
        max_cll: 1_000,
        max_fall: 400,
    }
}

#[test]
fn hdr_requires_feedback_and_gamescope_validity_fields() {
    let mut state = SwapchainState::default();
    assert_eq!(
        state.set_hdr_metadata(valid_hdr()),
        SetHdrMetadataResult::MissingSwapchainFeedback
    );

    state.set_feedback(feedback());
    let mut invalid = valid_hdr();
    invalid.max_fall = 0;
    assert_eq!(
        state.set_hdr_metadata(invalid),
        SetHdrMetadataResult::DiscardedInvalid
    );
    assert_eq!(state.feedback().unwrap().hdr_metadata, None);

    assert_eq!(
        state.set_hdr_metadata(valid_hdr()),
        SetHdrMetadataResult::Stored
    );
    assert_eq!(state.feedback().unwrap().hdr_metadata, Some(valid_hdr()));
}

#[test]
fn commit_consumes_only_one_shot_fields() {
    let mut state = SwapchainState::default();
    state.set_feedback(feedback());
    state.set_present_mode(2);
    state.set_present_time(42, 0x0123_4567, 0x89ab_cdef);

    let first = state.prepare_commit();
    assert_eq!(first.present_id, Some(42));
    assert_eq!(first.desired_present_time_ns, 0x0123_4567_89ab_cdef);
    assert_eq!(first.vk_present_mode, Some(2));
    assert_eq!(first.feedback, Some(feedback()));

    let second = state.prepare_commit();
    assert_eq!(second.present_id, None);
    assert_eq!(second.desired_present_time_ns, 0);
    assert_eq!(second.vk_present_mode, None);
    assert_eq!(second.feedback, Some(feedback()));
}

#[test]
fn white_point_and_light_levels_decide_about_metadata() {
    assert!(valid_hdr().is_accepted_by_gamescope());
    let mut metadata = valid_hdr();
    metadata.max_cll = 0;
    assert!(!metadata.is_accepted_by_gamescope());
    let mut metadata = valid_hdr();
    metadata.white_point = Chromaticity { x: 0, y: 0 };
    assert!(!metadata.is_accepted_by_gamescope());
    metadata.white_point = Chromaticity { x: 0, y: 1 };
    assert!(metadata.is_accepted_by_gamescope());
}

#[test]
fn times_go_over_the_wire_high_word_first() {
    let timing = PastPresentTiming {
        present_id: 4,
        desired_present_time_ns: 0x1_0000_0002,
        actual_present_time_ns: 0x3_0000_0004,
        earliest_present_time_ns: 0x5_0000_0006,
        present_margin_ns: 7,
    };
    assert_eq!(timing.wire_time_words(), [(1, 2), (3, 4), (5, 6), (0, 7)]);
}
