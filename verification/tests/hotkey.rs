use selection_translate::hotkey::{
    parse_cycle_hotkey, parse_virtual_key, plan_cycle_transition, CycleTransition,
    ParseHotkeyError, Registrations, CYCLE_PROFILES_ID, FIXED_MODIFIERS, MOD_SHIFT, MOD_WIN,
    TOGGLE_HOVER_ID, TOGGLE_POPUP_ID,
};

#[test]
fn parses_default_cycle_hotkey() {
    let parsed = parse_cycle_hotkey("Ctrl+Alt+P").expect("default hotkey must parse");
    assert_eq!(parsed.virtual_key, u32::from(b'P'));
    assert_eq!(parsed.modifiers, FIXED_MODIFIERS);
}

#[test]
fn parses_function_key_case_insensitively() {
    let parsed = parse_cycle_hotkey("shift+win+f12").expect("function hotkey must parse");
    assert_eq!(parsed.virtual_key, 0x7b);
    assert_eq!(parsed.modifiers, MOD_SHIFT | MOD_WIN);
}

#[test]
fn rejects_ambiguous_or_unmodified_hotkeys() {
    assert_eq!(
        parse_cycle_hotkey("Ctrl+Ctrl+P"),
        Err(ParseHotkeyError::DuplicateModifier)
    );
    assert_eq!(
        parse_cycle_hotkey("P"),
        Err(ParseHotkeyError::MissingModifier)
    );
    assert_eq!(parse_cycle_hotkey("Ctrl+"), Err(ParseHotkeyError::Empty));
    assert_eq!(
        parse_cycle_hotkey("Ctrl+MediaPlay"),
        Err(ParseHotkeyError::UnknownKey)
    );
}

#[test]
fn rejects_unknown_modifiers() {
    assert_eq!(
        parse_cycle_hotkey("Meta+P"),
        Err(ParseHotkeyError::UnknownModifier)
    );
}

#[test]
fn transition_planning_preserves_equal_registration() {
    let current = parse_cycle_hotkey("Ctrl+Alt+P").ok();
    assert_eq!(
        plan_cycle_transition(current, "Ctrl+Alt+P"),
        Ok(CycleTransition::Unchanged)
    );
}

#[test]
fn transition_planning_replaces_only_cycle_registration() {
    let current = parse_cycle_hotkey("Ctrl+Alt+P").ok();
    let next = parse_cycle_hotkey("Shift+F12").expect("new hotkey must parse");
    assert_eq!(
        plan_cycle_transition(current, "Shift+F12"),
        Ok(CycleTransition::Replace {
            previous: current,
            next,
        })
    );
}

#[test]
fn hotkey_errors_have_words() {
    for error in [
        ParseHotkeyError::Empty,
        ParseHotkeyError::MissingModifier,
        ParseHotkeyError::DuplicateModifier,
        ParseHotkeyError::UnknownModifier,
        ParseHotkeyError::UnknownKey,
    ] {
        assert!(!error.message().is_empty());
    }
}

#[test]
fn named_and_numbered_keys_have_codes() {
    assert_eq!(parse_virtual_key("A"), Some(0x41));
    assert_eq!(parse_virtual_key("7"), Some(0x37));
    assert_eq!(parse_virtual_key("F24"), Some(0x87));
    assert_eq!(parse_virtual_key("F25"), None);
    assert_eq!(parse_virtual_key("F0"), None);
}

#[test]
fn refused_cycle_hotkey_keeps_the_previous_one() {
    let mut registrations = Registrations::register(true, true, "Ctrl+Alt+P", true);
    assert!(registrations.manual_available());
    registrations.reregister("Shift+F12", false, true);
    assert_eq!(registrations.conflicts.len(), 1);
    let calls = registrations.cycle_calls("Ctrl+Alt+P");
    assert_eq!(calls.register, None);
    assert!(!calls.release);
    let mut released = registrations.unregister();
    released.sort();
    assert_eq!(
        released,
        vec![TOGGLE_HOVER_ID, TOGGLE_POPUP_ID, CYCLE_PROFILES_ID]
    );
    assert!(registrations.unregister().is_empty());
}

#[test]
fn manual_hotkey_that_is_taken_is_reported() {
    let registrations = Registrations::register(false, true, "Ctrl+Alt+P", true);
    assert!(!registrations.manual_available());
    assert_eq!(registrations.conflicts.len(), 1);
}
