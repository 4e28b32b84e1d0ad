use hotkey_engine::commands::{build_custom_command, build_np_command, build_perm_command, CommandMode};
use hotkey_engine::errors::EngineError;

#[test]
fn np_command_strips_leading_at() {
    let cmd = build_np_command(CommandMode::SlashNpp, "@abc123").unwrap();
    assert_eq!(cmd, "/npp @abc123");
}

#[test]
fn np_command_uses_mode_prefix() {
    assert_eq!(build_np_command(CommandMode::BangNp, "xyz").unwrap(), "!np @xyz");
    assert_eq!(build_np_command(CommandMode::SlashNp, "xyz").unwrap(), "/np @xyz");
    assert_eq!(build_np_command(CommandMode::SlashNpp, " xyz ").unwrap(), "/npp @xyz");
}

#[test]
fn np_command_rejects_empty_mapcode() {
    assert!(matches!(build_np_command(CommandMode::BangNp, ""), Err(EngineError::EmptyInput)));
    assert!(matches!(build_np_command(CommandMode::BangNp, "   "), Err(EngineError::EmptyInput)));
}

#[test]
fn perm_command_formats_category_and_mapcode() {
    assert_eq!(build_perm_command(7, "xyz").unwrap(), "/p 7 @xyz");
    assert_eq!(build_perm_command(42, "@m").unwrap(), "/p 42 @m");
    assert_eq!(build_perm_command(123, "m").unwrap(), "/p 123 @m");
    assert_eq!(build_perm_command(0, "m").unwrap(), "/p 0 @m");
    assert_eq!(build_perm_command(999, "m").unwrap(), "/p 999 @m");
}

#[test]
fn perm_command_rejects_out_of_range_category() {
    assert!(matches!(build_perm_command(-1, "xyz"), Err(EngineError::InvalidRange)));
    assert!(matches!(build_perm_command(1000, "xyz"), Err(EngineError::InvalidRange)));
}

#[test]
fn perm_command_checks_mapcode_before_category() {
    assert!(matches!(build_perm_command(-1, ""), Err(EngineError::EmptyInput)));
}

#[test]
fn custom_command_rejects_empty_inputs() {
    assert!(matches!(
        build_custom_command("!foo", "", None),
        Err(EngineError::EmptyInput)
    ));
    assert!(matches!(
        build_custom_command("", "m", None),
        Err(EngineError::EmptyInput)
    ));
    assert!(matches!(
        build_custom_command("  ", "m", None),
        Err(EngineError::EmptyInput)
    ));
}

#[test]
fn custom_command_appends_suffix_when_present() {
    assert_eq!(build_custom_command("!foo", "@m", None).unwrap(), "!foo @m");
    assert_eq!(build_custom_command("!foo", "m", Some("extra")).unwrap(), "!foo @m extra");
    assert_eq!(build_custom_command("!foo", "m", Some("  ")).unwrap(), "!foo @m");
    assert_eq!(build_custom_command(" !foo ", " @m ", Some(" s ")).unwrap(), "!foo @m s");
}

#[test]
fn error_messages_are_human_readable() {
    assert_eq!(EngineError::EmptyInput.message(), "empty input");
    assert_eq!(EngineError::InvalidRange.message(), "invalid categoryNumber");
    assert_eq!(EngineError::LockUnavailable.message(), "state lock poisoned");
    let e = EngineError::Platform { message: "boom".to_string() };
    assert_eq!(e.message(), "boom");
}
