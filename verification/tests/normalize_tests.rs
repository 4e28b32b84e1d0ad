use hotkey_engine::normalize::normalize_shortcut_string;

#[test]
fn shifted_punctuation_gets_shift_and_canonical_name() {
    assert_eq!(normalize_shortcut_string("Ctrl+<"), "Ctrl+Shift+Comma");
    assert_eq!(normalize_shortcut_string("Ctrl+>"), "Ctrl+Shift+Period");
    assert_eq!(normalize_shortcut_string("Ctrl+?"), "Ctrl+Shift+Slash");
    assert_eq!(normalize_shortcut_string("?"), "Shift+Slash");
}

#[test]
fn unshifted_punctuation_maps_without_shift() {
    assert_eq!(normalize_shortcut_string(","), "Comma");
    assert_eq!(normalize_shortcut_string("."), "Period");
    assert_eq!(normalize_shortcut_string("/"), "Slash");
    assert_eq!(normalize_shortcut_string("Alt+."), "Alt+Period");
}

#[test]
fn existing_shift_is_not_duplicated() {
    assert_eq!(normalize_shortcut_string("Shift+<"), "Shift+Comma");
    assert_eq!(normalize_shortcut_string("shift + <"), "shift+Comma");
    assert_eq!(normalize_shortcut_string("SHIFT+>"), "SHIFT+Period");
}

#[test]
fn tokens_are_trimmed_and_empties_dropped() {
    assert_eq!(normalize_shortcut_string(" Ctrl + Alt + P "), "Ctrl+Alt+P");
    assert_eq!(normalize_shortcut_string("++A"), "A");
    assert_eq!(normalize_shortcut_string("Ctrl++P"), "Ctrl+P");
    assert_eq!(normalize_shortcut_string("PageUp"), "PageUp");
}

#[test]
fn empty_input_normalizes_to_empty() {
    assert_eq!(normalize_shortcut_string(""), "");
    assert_eq!(normalize_shortcut_string("   "), "");
    assert_eq!(normalize_shortcut_string("+"), "");
    assert_eq!(normalize_shortcut_string(" + + "), "");
}

#[test]
fn normalization_is_idempotent_on_samples() {
    let samples = [
        "Ctrl+<",
        "shift + ?",
        " Ctrl + Alt + P ",
        "++A",
        "",
        "PageDown",
        "Insert",
        "a+b+c",
        "<+<",
        "Shift",
    ];
    for s in samples {
        let once = normalize_shortcut_string(s);
        let twice = normalize_shortcut_string(&once);
        assert_eq!(twice, once, "not idempotent on {:?}", s);
    }
}
