use hotkey_engine::errors::EngineError;
use hotkey_engine::inject::{InjectCommand, InjectionMachine, StepReport};

fn expect_pause(cmd: &InjectCommand, ms: u64) {
    match cmd {
        InjectCommand::Pause(v) => assert_eq!(*v, ms),
        _ => panic!("expected a pause"),
    }
}

#[test]
fn happy_path_runs_the_documented_sequence() {
    let (mut m, first) = InjectionMachine::begin("/npp @abc".to_string(), false);
    assert!(matches!(first, InjectCommand::ReadClipboard));

    let cmd = m.advance(StepReport::ReadBack(Some("old clip".to_string())));
    match &cmd {
        InjectCommand::WriteClipboard(t) => assert_eq!(t, "/npp @abc"),
        _ => panic!("expected the clipboard write"),
    }
    let cmd = m.advance(StepReport::Completed);
    assert!(matches!(cmd, InjectCommand::TapConfirmKey));
    let cmd = m.advance(StepReport::Completed);
    match cmd {
        InjectCommand::PressPasteModifier { meta } => assert!(!meta),
        _ => panic!("expected the modifier press"),
    }
    let cmd = m.advance(StepReport::Completed);
    expect_pause(&cmd, 20);
    let cmd = m.advance(StepReport::Completed);
    assert!(matches!(cmd, InjectCommand::TapPasteKey));
    let cmd = m.advance(StepReport::Completed);
    expect_pause(&cmd, 20);
    let cmd = m.advance(StepReport::Completed);
    assert!(matches!(cmd, InjectCommand::ReleasePasteModifier));
    let cmd = m.advance(StepReport::Completed);
    expect_pause(&cmd, 250);
    let cmd = m.advance(StepReport::Completed);
    assert!(matches!(cmd, InjectCommand::TapConfirmKey));
    let cmd = m.advance(StepReport::Completed);
    match &cmd {
        InjectCommand::RestoreClipboard(t) => assert_eq!(t, "old clip"),
        _ => panic!("expected the clipboard restore"),
    }
    let cmd = m.advance(StepReport::Completed);
    match cmd {
        InjectCommand::Finish(Ok(t)) => assert_eq!(t, "/npp @abc"),
        _ => panic!("expected a successful finish"),
    }
}

#[test]
fn macos_family_uses_the_command_key() {
    let (mut m, _) = InjectionMachine::begin("x".to_string(), true);
    m.advance(StepReport::ReadBack(None));
    m.advance(StepReport::Completed);
    let cmd = m.advance(StepReport::Completed);
    match cmd {
        InjectCommand::PressPasteModifier { meta } => assert!(meta),
        _ => panic!("expected the modifier press"),
    }
}

#[test]
fn no_saved_content_skips_restoration() {
    let (mut m, _) = InjectionMachine::begin("x".to_string(), false);
    m.advance(StepReport::ReadBack(None));
    for _ in 0..8 {
        m.advance(StepReport::Completed);
    }
    let cmd = m.advance(StepReport::Completed);
    assert!(matches!(cmd, InjectCommand::Finish(Ok(_))));
}

#[test]
fn hard_failure_still_restores_the_clipboard() {
    let (mut m, _) = InjectionMachine::begin("x".to_string(), false);
    m.advance(StepReport::ReadBack(Some("precious".to_string())));
    // The clipboard write fails outright.
    let cmd = m.advance(StepReport::Failed("no clipboard".to_string()));
    match &cmd {
        InjectCommand::RestoreClipboard(t) => assert_eq!(t, "precious"),
        _ => panic!("expected restoration before the failure is surfaced"),
    }
    let cmd = m.advance(StepReport::Completed);
    match cmd {
        InjectCommand::Finish(Err(EngineError::Platform { message })) => {
            assert_eq!(message, "no clipboard");
        }
        _ => panic!("expected the original failure to be surfaced"),
    }
}

#[test]
fn hard_failure_without_saved_content_finishes_at_once() {
    let (mut m, _) = InjectionMachine::begin("x".to_string(), false);
    m.advance(StepReport::ReadBack(None));
    let cmd = m.advance(StepReport::Failed("key stuck".to_string()));
    match cmd {
        InjectCommand::Finish(Err(EngineError::Platform { message })) => {
            assert_eq!(message, "key stuck");
        }
        _ => panic!("expected an immediate failed finish"),
    }
}

#[test]
fn restoration_failure_is_swallowed() {
    let (mut m, _) = InjectionMachine::begin("x".to_string(), false);
    m.advance(StepReport::ReadBack(Some("old".to_string())));
    for _ in 0..8 {
        m.advance(StepReport::Completed);
    }
    // Submit succeeded; restoration is attempted and fails.
    let cmd = m.advance(StepReport::Completed);
    assert!(matches!(cmd, InjectCommand::RestoreClipboard(_)));
    let cmd = m.advance(StepReport::Failed("clipboard gone".to_string()));
    match cmd {
        InjectCommand::Finish(Ok(t)) => assert_eq!(t, "x"),
        _ => panic!("a restoration failure must not fail the injection"),
    }
}
