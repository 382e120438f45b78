use gamescope::control::ScreenType;
use gamescope::ime::{action_keycode, ime_character_keycodes, ime_keymap, type_input_method_commit};
use gamescope::input_method::{InputMethodAction, InputMethodCommit};
use gamescope::scaling::{check_sizes, ScaleAxes, ScaleError, ScaleMode, Size};
use gamescope::steam::BridgeEvent;
use gamescope::steam_properties::{
    create_feedback_property, display_name, initial_properties, refresh_property, vrr_properties,
    AtomEntry, FocusPublication, PropertyChange, PropertyValue, PropertyWrite, SteamAtoms,
    SteamProperty, VrrFeedback,
};
use gamescope::tables::Table;
use gamescope::text::{
    read_i32, read_u32, read_usize, split_nonempty_bytes, split_nonempty_strings, split_words,
    whitespace,
};

#[test]
fn rejects_zero_dimensions_at_the_safe_rust_boundary() {
    assert_eq!(
        check_sizes(
            Size::new(0, 720),
            Size::new(1920, 1080),
            Size::new(1280, 720)
        ),
        Err(ScaleError::EmptyNestedSize)
    );
}

#[test]
fn every_empty_size_is_named() {
    let full = Size::new(1, 1);
    let empty = Size::new(1, 0);
    assert_eq!(check_sizes(full, full, full), Ok(()));
    assert_eq!(check_sizes(full, empty, empty), Err(ScaleError::EmptyOutputSize));
    assert_eq!(check_sizes(full, full, empty), Err(ScaleError::EmptySourceSize));
    let plan = ScaleMode::Integer.plan();
    assert_eq!((plan.axes, plan.capped, plan.floored), (ScaleAxes::Smaller, false, true));
    assert_eq!(ScaleMode::Fill.plan().axes, ScaleAxes::Larger);
    assert!(ScaleMode::default().plan().capped);
    assert_eq!(ScaleMode::Stretch.code(), 4);
}

fn atoms() -> SteamAtoms {
    let mut entries = Vec::new();
    for (index, property) in SteamProperty::all().into_iter().enumerate() {
        entries.push(AtomEntry {
            property,
            atom: 100 + index as u32,
        });
    }
    SteamAtoms { entries }
}

#[test]
fn property_changes_are_sorted() {
    let atoms = atoms();
    let game = atoms.atom(SteamProperty::SteamGame).expect("atom");
    let nudge = atoms.atom(SteamProperty::DisplayModeNudge).expect("atom");
    assert_eq!(atoms.property(game), Some(SteamProperty::SteamGame));
    assert_eq!(atoms.classify(1, 5, game), PropertyChange::Window(5));
    assert_eq!(atoms.classify(1, 5, nudge), PropertyChange::Ignored);
    assert_eq!(
        atoms.classify(1, 1, nudge),
        PropertyChange::Root(SteamProperty::DisplayModeNudge)
    );
    assert_eq!(atoms.classify(1, 1, 5), PropertyChange::Ignored);
}

#[test]
fn root_properties_become_events() {
    assert_eq!(SteamProperty::CreateXwayland.event(Some(0)), None);
    assert_eq!(
        SteamProperty::CreateXwayland.event(Some(7)),
        Some(BridgeEvent::CreateXwayland(7))
    );
    assert_eq!(
        SteamProperty::DestroyXwayland.event(Some(0)),
        Some(BridgeEvent::DestroyXwayland(0))
    );
    assert_eq!(SteamProperty::DestroyXwayland.event(None), None);
    assert_eq!(
        SteamProperty::DynamicRefreshExternal.event(None),
        Some(BridgeEvent::DynamicRefreshChanged {
            screen: ScreenType::External,
            refresh_hz: 0
        })
    );
    assert_eq!(SteamProperty::VrrFeedback.event(Some(1)), None);
    assert_eq!(SteamProperty::VrrEnabled.name(), "GAMESCOPE_VRR_ENABLED");
}

fn number(property: SteamProperty, value: u32) -> PropertyWrite {
    PropertyWrite {
        property,
        value: PropertyValue::Cardinals(vec![value]),
    }
}

#[test]
fn vrr_feedback_is_written_when_it_changes() {
    let feedback = VrrFeedback {
        capable: true,
        in_use: false,
    };
    assert_eq!(
        vrr_properties(None, feedback),
        [
            number(SteamProperty::VrrCapable, 1),
            number(SteamProperty::VrrFeedback, 0)
        ]
    );
    assert!(vrr_properties(Some(feedback), feedback).is_empty());
    let used = VrrFeedback {
        capable: true,
        in_use: true,
    };
    assert_eq!(
        vrr_properties(Some(feedback), used),
        [number(SteamProperty::VrrFeedback, 1)]
    );
}

#[test]
fn servers_introduce_themselves() {
    let writes = initial_properties(2, 77, 59_500);
    assert_eq!(writes[0], number(SteamProperty::XwaylandServerId, 2));
    assert_eq!(writes[1], number(SteamProperty::GamescopePid, 77));
    assert_eq!(writes.last(), Some(&number(SteamProperty::RefreshFeedback, 60)));
    assert_eq!(refresh_property(-700), [number(SteamProperty::RefreshFeedback, 0)]);
    assert_eq!(
        create_feedback_property(9, 2, ":3"),
        [PropertyWrite {
            property: SteamProperty::CreateXwaylandFeedback,
            value: PropertyValue::Text("9 2 :3".into()),
        }]
    );
    assert_eq!(display_name(12), ":12");
}

#[test]
fn focus_is_published_for_steam() {
    let publication = FocusPublication {
        focusable_apps: vec![42],
        focusable_windows: vec![7, 42, 9],
        focused_window: Some(7),
        focused_app: None,
        focused_gfx_app: Some(42),
        focus_display: ":1".into(),
        steam_mode: true,
    };
    let writes = publication.properties();
    assert_eq!(writes.len(), 9);
    assert_eq!(writes[2], number(SteamProperty::FocusedWindow, 7));
    assert_eq!(
        writes[3],
        PropertyWrite {
            property: SteamProperty::FocusedApp,
            value: PropertyValue::Cardinals(vec![]),
        }
    );
}

#[test]
fn committed_text_is_typed_through_its_own_keymap() {
    assert_eq!(ime_character_keycodes("ab"), [2, 3]);
    let many = "x".repeat(49);
    let codes = ime_character_keycodes(&many);
    assert_eq!((codes[12], codes[47], codes[48]), (16, 86, 2));
    let keymap = ime_keymap("\u{e4}");
    assert!(keymap.contains("key <K2> = 10;\n"));
    assert!(keymap.contains("key <K2> { [ U00E4 ] };\n"));
    assert!(keymap.contains("key <K28> { [ Return ] };\n"));
    assert!(keymap.contains("xkb_types \"gamescope-ime\" { include \"complete\" };"));
    assert_eq!(action_keycode(InputMethodAction::NoAction), None);
    assert_eq!(action_keycode(InputMethodAction::MoveDown), Some(108));
}

#[test]
fn strokes_have_their_own_serials() {
    let mut serial = u32::MAX;
    let plan = type_input_method_commit(
        &InputMethodCommit {
            text: Some("a".into()),
            action: InputMethodAction::Submit,
        },
        &mut serial,
    );
    assert!(plan.keymap.is_some());
    let strokes: Vec<_> = plan
        .strokes
        .iter()
        .map(|stroke| (stroke.keycode, stroke.pressed, stroke.serial))
        .collect();
    assert_eq!(
        strokes,
        [(2, true, u32::MAX), (2, false, 0), (28, true, 1), (28, false, 2)]
    );
    assert_eq!(serial, 3);
    let plan = type_input_method_commit(
        &InputMethodCommit {
            text: Some(String::new()),
            action: InputMethodAction::NoAction,
        },
        &mut serial,
    );
    assert!(plan.keymap.is_none() && plan.strokes.is_empty());
}

#[test]
fn numbers_are_read_like_those_of_std() {
    for text in [
        "", "+", "-", "0", "+7", "-7", "007", "4294967295", "4294967296", "2147483647",
        "2147483648", "-2147483648", "-2147483649", " 1", "1 ", "1_0", "\u{661}",
        "18446744073709551615", "18446744073709551616", "99999999999999999999999",
    ] {
        assert_eq!(read_u32(text), text.parse().ok(), "{text:?}");
        assert_eq!(read_i32(text), text.parse().ok(), "{text:?}");
        assert_eq!(read_usize(text), text.parse().ok(), "{text:?}");
    }
}

#[test]
fn texts_are_split_like_those_of_std() {
    for text in ["", ",", "a", ",a,,b,", "\u{e4},\u{20ac}"] {
        let pieces: Vec<&str> = text.split(',').filter(|piece| !piece.is_empty()).collect();
        assert_eq!(split_nonempty_strings(text, ','), pieces);
    }
    for text in ["", "  ", "a", " a\tb \u{a0}c\n", "\u{3000}x"] {
        let chars: Vec<char> = text.chars().collect();
        let words: Vec<&str> = text.split_whitespace().collect();
        assert_eq!(split_words(&chars, 0), words);
    }
    assert_eq!(split_nonempty_bytes(b"\0a\0\0b", 0), [b"a".to_vec(), b"b".to_vec()]);
}

#[test]
fn whitespace_is_that_of_std() {
    for code in 0..=0x10_ffff_u32 {
        if let Some(character) = char::from_u32(code) {
            assert_eq!(whitespace(character), character.is_whitespace(), "{code:x}");
        }
    }
}

#[test]
fn tables_forget_ranges() {
    let mut table: Table<u32> = Table::new();
    for key in [1, 5, 9] {
        table.insert(key, 7);
    }
    table.insert(5, 8);
    assert_eq!(table.get(5), Some(&8));
    table.remove_value(0, 5, 7);
    assert!(!table.contains(1));
    assert!(table.contains(9));
    table.remove_range(4, 6);
    assert!(!table.contains(5));
    assert_eq!(table.remove(9), Some(7));
    assert_eq!(table.remove(9), None);
}
