use gamescope::steam::{
    select_focus, select_managed_ancestor, select_override, FocusCandidate, FocusControl,
    WindowMetadata, WindowProperties, OPAQUE, STEAM_APP_ID,
};
use gamescope::steam_process::{
    app_id_from_reaper_command_line, find_client_pid, is_stat_in_order, parse_stat, AncestorWalk,
    ProcessStat, ProcessStep, ProcessWalk,
};

fn candidate(window_id: u32, app_id: u32, sequence: u64) -> FocusCandidate {
    FocusCandidate {
        server_id: 0,
        window_id,
        app_id,
        mapped: true,
        override_redirect: false,
        transient_for: None,
        width: 1280,
        height: 720,
        sequence,
    }
}

#[test]
fn steam_control_window_and_app_order_override_recency() {
    let candidates = [
        candidate(10, 100, 1),
        candidate(20, 200, 3),
        candidate(30, 100, 4),
    ];
    assert_eq!(
        select_focus(
            &candidates,
            &FocusControl {
                window: Some(10),
                app_ids: vec![200],
            }
        )
        .map(|window| window.window_id),
        Some(10)
    );
    assert_eq!(
        select_focus(
            &candidates,
            &FocusControl {
                window: None,
                app_ids: vec![100, 200],
            }
        )
        .map(|window| window.window_id),
        Some(30)
    );
}

#[test]
fn ordinary_game_beats_newer_override_and_useless_windows() {
    let mut popup = candidate(20, 100, 5);
    popup.override_redirect = true;
    let mut useless = candidate(30, 200, 10);
    useless.width = 1;
    let candidates = [candidate(10, 100, 1), popup, useless];
    assert_eq!(
        select_focus(&candidates, &FocusControl::default()).map(|window| window.window_id),
        Some(10)
    );
}

#[test]
fn transient_override_chain_follows_focused_window() {
    let focus = candidate(10, 100, 1);
    let mut first = candidate(20, 100, 2);
    first.override_redirect = true;
    first.transient_for = Some(10);
    let mut second = candidate(30, 100, 3);
    second.override_redirect = true;
    second.transient_for = Some(20);
    assert_eq!(
        select_override(focus, &[focus, first, second]).map(|window| window.window_id),
        Some(30)
    );
}

#[test]
fn wsi_child_resolves_to_the_first_managed_ancestor() {
    let ancestors = [0x0460_002e, 0x04a0_0001, 0x0020_0008];
    assert_eq!(
        select_managed_ancestor(&ancestors, &vec![0x04a0_0001, 0x0200_0035]),
        Some(0x04a0_0001)
    );
}

#[test]
fn role_metadata_matches_gamescope_app_id_rules() {
    let legacy = WindowMetadata {
        legacy_big_picture: true,
        app_id: 42,
        ..WindowMetadata::default()
    };
    assert_eq!(legacy.effective_app_id(true, 5), STEAM_APP_ID);

    let external = WindowMetadata {
        external_overlay: true,
        app_id: 42,
        ..WindowMetadata::default()
    };
    assert_eq!(external.effective_app_id(true, 5), 0);
    assert_eq!(WindowMetadata::default().effective_app_id(false, 5), 5);
}

#[test]
fn steam_reaper_command_line_infers_app_id_only_before_separator() {
    assert_eq!(
        app_id_from_reaper_command_line(b"reaper\0SteamLaunch\0AppId=1234\0--\0game\0"),
        Some(1234)
    );
    assert_eq!(
        app_id_from_reaper_command_line(b"reaper\0--\0SteamLaunch\0AppId=1234\0"),
        None
    );
}

#[test]
fn a_requested_window_that_is_useless_is_passed_over() {
    let mut unmapped = candidate(10, 100, 1);
    unmapped.mapped = false;
    let candidates = [unmapped, candidate(20, 0, 2), candidate(30, 7, 1)];
    let control = FocusControl {
        window: Some(10),
        app_ids: vec![99],
    };
    assert_eq!(
        select_focus(&candidates, &control).map(|window| window.window_id),
        Some(30)
    );
    assert_eq!(select_focus(&[unmapped], &control), None);
}

#[test]
fn popups_of_other_windows_are_not_followed() {
    let focus = candidate(10, 100, 1);
    let mut popup = candidate(20, 100, 2);
    popup.override_redirect = true;
    popup.transient_for = Some(99);
    assert_eq!(select_override(focus, &[focus, popup]), None);
    popup.transient_for = Some(10);
    popup.server_id = 1;
    assert_eq!(select_override(focus, &[focus, popup]), None);
}

#[test]
fn window_properties_become_metadata() {
    let properties = WindowProperties {
        steam_game: Some(0),
        steam_big_picture: None,
        steam_overlay: Some(1),
        external_overlay: Some(0),
        streaming_client: None,
        streaming_client_video: None,
        input_focus: Some(2),
        opacity: None,
        inferred_app_id: 77,
        pid: 5,
    };
    let metadata = properties.metadata();
    assert_eq!(metadata.app_id, 77);
    assert!(metadata.overlay);
    assert!(!metadata.external_overlay);
    assert_eq!(metadata.input_focus_mode, 2);
    assert_eq!(metadata.opacity, OPAQUE);
    assert_eq!(metadata.pid, 5);
}

#[test]
fn reaper_arguments_must_be_complete() {
    assert_eq!(
        app_id_from_reaper_command_line(b"reaper\0AppId=12\0SteamLaunch\0"),
        None
    );
    assert_eq!(
        app_id_from_reaper_command_line(b"reaper\0SteamLaunch\0AppId=zero\0AppId=3\0"),
        Some(3)
    );
    assert_eq!(
        app_id_from_reaper_command_line(b"reaper\0SteamLaunch\0AppId=0\0"),
        None
    );
    assert_eq!(
        app_id_from_reaper_command_line(b"reaper\0SteamLaunch\0AppId=\xff\0"),
        None
    );
}

#[test]
fn process_names_may_hold_parentheses() {
    let stat = "42 (rea (p) er) S 7 42 42 0";
    assert!(is_stat_in_order(stat));
    let parsed = parse_stat(stat).unwrap();
    assert_eq!(parsed.name, "rea (p) er");
    assert_eq!(parsed.parent, 7);
    assert!(!is_stat_in_order(") 42 ( 1"));
    assert_eq!(parse_stat("42 without name"), None);
}

#[test]
fn processes_are_walked_up_to_the_reaper() {
    let mut walk = ProcessWalk::new(30);
    assert!(matches!(walk.step(), ProcessStep::ReadStat(30)));
    walk.stat_read(parse_stat("30 (game) S 20 30"));
    assert!(matches!(walk.step(), ProcessStep::ReadStat(20)));
    walk.stat_read(parse_stat("20 (reaper) S 1 20"));
    assert!(matches!(walk.step(), ProcessStep::ReadCommandLine(20)));
    walk.command_line_read(Some(b"reaper\0SteamLaunch\0AppId=620\0--\0game\0"));
    assert!(matches!(walk.step(), ProcessStep::Found(620)));
}

#[test]
fn a_walk_ends_where_processes_end() {
    let mut walk = ProcessWalk::new(30);
    walk.stat_read(None);
    assert!(matches!(walk.step(), ProcessStep::Found(0)));
    let mut walk = ProcessWalk::new(30);
    walk.stat_read(Some(ProcessStat {
        name: "game".into(),
        parent: 30,
    }));
    assert!(matches!(walk.step(), ProcessStep::Found(0)));
}

#[test]
fn client_pids_and_ancestors_are_found() {
    assert_eq!(find_client_pid(&vec![vec![], vec![9, 10], vec![11]]), Some(9));
    assert_eq!(find_client_pid(&vec![vec![], vec![0], vec![9, 10]]), None);
    assert_eq!(find_client_pid(&vec![vec![], vec![]]), None);
    let mut walk = AncestorWalk::new(1, 5);
    assert_eq!(walk.query(), Some(5));
    walk.parent_found(4);
    assert_eq!(walk.query(), Some(4));
    walk.parent_found(1);
    assert_eq!(walk.query(), None);
    assert_eq!(walk.ancestors(), [5, 4]);
}
