use gamescope::action_binding::{
    normalize_keysym, resolve_alias, ActionBinding, ARM_NO_BLOCK, ARM_ONE_SHOT,
};
use xkeysym::key;

#[test]
fn normalization_matches_gamescope_aliases_and_case() {
    assert_eq!(normalize_keysym(key::a), key::A);
    assert_eq!(normalize_keysym(key::ISO_Left_Tab), key::Tab);
    assert_eq!(normalize_keysym(key::Meta_L), key::Super_L);
    assert_eq!(normalize_keysym(key::ISO_Level3_Shift), key::Alt_R);
}

#[test]
fn triggers_compare_the_entire_pressed_set() {
    let mut binding = ActionBinding::default();
    binding.add_keyboard_trigger(&[key::Control_L, key::a, key::a]);
    binding.add_keyboard_trigger(&[key::Control_L, key::A]);
    binding.arm(0);

    assert!(binding.matches_pressed(&[key::A, key::Control_L]));
    assert_eq!(binding.matching_trigger_count(&[key::A, key::Control_L]), 2);
    assert!(!binding.matches_pressed(&[key::A]));
    assert!(!binding.matches_pressed(&[key::A, key::Control_L, key::Shift_L]));
}

#[test]
fn one_shot_disarms_and_event_uses_xml_word_order() {
    let mut binding = ActionBinding::default();
    binding.arm(ARM_ONE_SHOT | ARM_NO_BLOCK);
    let execution = binding.execute(7, 0x0123_4567_89ab_cdef).unwrap();

    assert_eq!(execution.event.sequence, 7);
    assert_eq!(execution.event.time_low, 0x89ab_cdef);
    assert_eq!(execution.event.time_high, 0x0123_4567);
    assert!(execution.blocks_input);
    assert!(!binding.is_armed());
    assert_eq!(binding.execute(8, 0), None);
}

#[test]
fn letters_beyond_latin_have_one_case() {
    assert_eq!(normalize_keysym(key::adiaeresis), key::Adiaeresis);
    assert_eq!(normalize_keysym(key::Cyrillic_a), normalize_keysym(key::Cyrillic_A));
    assert_eq!(normalize_keysym(key::ssharp), key::ssharp);
    assert_eq!(normalize_keysym(key::F1), key::F1);
    assert_eq!(normalize_keysym(key::ISO_Enter), key::Return);
    assert_eq!(normalize_keysym(key::Meta_R), key::Super_R);
}

#[test]
fn aliases_are_looked_up_after_the_uppercase_letter() {
    assert_eq!(resolve_alias(key::ISO_Left_Tab, Some(key::A)), key::A);
    assert_eq!(resolve_alias(key::a, Some(key::Meta_L)), key::Super_L);
    assert_eq!(resolve_alias(key::ISO_Left_Tab, None), key::Tab);
    assert_eq!(resolve_alias(key::b, Some(key::B)), key::B);
    assert_eq!(resolve_alias(key::b, None), key::b);
}

#[test]
fn order_and_repetition_of_pressed_keys_do_not_matter() {
    let mut binding = ActionBinding::default();
    binding.add_keyboard_trigger(&[key::Super_L, key::Tab]);
    binding.arm(0);
    assert!(binding.matches_pressed(&[key::Tab, key::Super_L]));
    assert!(binding.matches_pressed(&[key::Super_L, key::Tab, key::ISO_Left_Tab, key::Meta_L]));
}

#[test]
fn disarmed_bindings_do_nothing() {
    let mut binding = ActionBinding::default();
    binding.set_description("screenshot");
    binding.add_keyboard_trigger(&[key::Print]);
    assert_eq!(binding.description(), "screenshot");
    assert_eq!(binding.execute(1, 2), None);
    binding.arm(0);
    assert!(binding.is_armed());
    let execution = binding.execute(1, 2).unwrap();
    assert_eq!(execution.event.trigger_flags, 1);
    assert!(!execution.blocks_input);
    assert!(binding.is_armed());
    binding.clear_triggers();
    assert!(!binding.matches_pressed(&[key::Print]));
    binding.disarm();
    assert!(!binding.is_armed());
}
