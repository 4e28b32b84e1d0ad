use hotkey_engine::binding::parse_accelerator;
use hotkey_engine::errors::{EngineError, HotkeySlot};

#[test]
fn parse_accepts_plain_keys() {
    assert!(parse_accelerator("PageUp", HotkeySlot::SessionPrev).is_ok());
    assert!(parse_accelerator("PageDown", HotkeySlot::SessionNext).is_ok());
    assert!(parse_accelerator("Insert", HotkeySlot::SessionReplay).is_ok());
    assert!(parse_accelerator("F5", HotkeySlot::MassToggle).is_ok());
}

#[test]
fn binding_equality_ignores_modifier_order_and_case() {
    let a = parse_accelerator("Ctrl+Shift+P", HotkeySlot::SessionPrev).unwrap();
    let b = parse_accelerator("shift + ctrl + P", HotkeySlot::SessionPrev).unwrap();
    assert!(a.same_as(&b));
    let c = parse_accelerator("Alt+P", HotkeySlot::SessionPrev).unwrap();
    assert!(!a.same_as(&c));
}

#[test]
fn shifted_punctuation_parses_via_normalization() {
    // "<" alone is not a key name the shortcut subsystem accepts; the
    // normalizer rewrites it to Shift+Comma first.
    let a = parse_accelerator("<", HotkeySlot::SessionPrev).unwrap();
    let b = parse_accelerator("Shift+Comma", HotkeySlot::SessionPrev).unwrap();
    assert!(a.same_as(&b));
}

#[test]
fn unparsable_accelerator_names_the_slot() {
    let e = parse_accelerator("NotARealKeyName", HotkeySlot::MassNext).unwrap_err();
    match e {
        EngineError::InvalidAccelerator { slot, raw } => {
            assert_eq!(slot, HotkeySlot::MassNext);
            assert_eq!(raw, "NotARealKeyName");
        }
        other => panic!("unexpected error: {:?}", other),
    }
}

#[test]
fn empty_accelerator_is_rejected() {
    assert!(parse_accelerator("", HotkeySlot::SessionPrev).is_err());
    assert!(parse_accelerator("   ", HotkeySlot::SessionPrev).is_err());
    assert!(parse_accelerator("+", HotkeySlot::SessionPrev).is_err());
}

#[test]
fn modifiers_without_base_key_are_rejected() {
    assert!(parse_accelerator("Ctrl+Shift", HotkeySlot::SessionPrev).is_err());
}

#[test]
fn invalid_accelerator_message_names_slot_and_raw() {
    let e = parse_accelerator("Bogus", HotkeySlot::SessionReplay).unwrap_err();
    assert_eq!(e.message(), "invalid hotkey (replayCurrent): Bogus");
}
