use hotkey_engine::binding::ShortcutBinding;
use hotkey_engine::binding::parse_accelerator;
use hotkey_engine::errors::{EngineError, HotkeySlot};
use hotkey_engine::registry::{HotkeyAction, Notification, OsAction, RegistryState};

/// A fake platform layer recording which bindings hold an OS registration.
/// Unregistering a binding that is not registered panics, so a test fails
/// on any redundant unregister; registering an already-registered binding
/// is tolerated (the real platform rejects it and the caller discards the
/// error) but never duplicates the entry.
struct FakeOs {
    live: Vec<(u32, String)>,
}

impl FakeOs {
    fn new() -> FakeOs {
        FakeOs { live: Vec::new() }
    }

    fn index_of(&self, b: &ShortcutBinding) -> Option<usize> {
        self.live.iter().position(|e| e.0 == b.mods && e.1 == b.key)
    }

    fn apply(&mut self, actions: &[OsAction]) {
        for a in actions {
            match a {
                OsAction::Register(b) => {
                    if self.index_of(b).is_none() {
                        self.live.push((b.mods, b.key.clone()));
                    }
                }
                OsAction::Unregister(b) => {
                    let i = self
                        .index_of(b)
                        .expect("unregister of a binding that is not registered");
                    self.live.remove(i);
                }
            }
        }
    }

    fn holds(&self, accel: &str) -> bool {
        self.index_of(&bind(accel)).is_some()
    }

    fn count_of(&self, accel: &str) -> usize {
        let b = bind(accel);
        self.live
            .iter()
            .filter(|e| e.0 == b.mods && e.1 == b.key)
            .count()
    }
}

fn bind(accel: &str) -> ShortcutBinding {
    parse_accelerator(accel, HotkeySlot::SessionPrev).unwrap()
}

#[test]
fn registering_twice_leaves_only_the_second_set() {
    let mut reg = RegistryState::new();
    let mut os = FakeOs::new();
    let eff = reg
        .register_session(Some("F1"), Some("F2"), Some("F3"))
        .unwrap();
    os.apply(&eff.actions);
    assert!(os.holds("F1") && os.holds("F2") && os.holds("F3"));

    let eff2 = reg
        .register_session(Some("F5"), Some("F6"), Some("F7"))
        .unwrap();
    os.apply(&eff2.actions);
    assert!(os.holds("F5") && os.holds("F6") && os.holds("F7"));
    assert!(!os.holds("F1") && !os.holds("F2") && !os.holds("F3"));
    assert_eq!(os.live.len(), 3);
}

#[test]
fn register_session_uses_documented_defaults() {
    let mut reg = RegistryState::new();
    let mut os = FakeOs::new();
    let eff = reg.register_session(None, None, None).unwrap();
    os.apply(&eff.actions);
    assert!(os.holds("PageUp") && os.holds("PageDown") && os.holds("Insert"));
    assert_eq!(eff.notifications.len(), 1);
    match &eff.notifications[0] {
        Notification::SessionRegistered {
            enabled,
            prev,
            next,
            replay,
        } => {
            assert!(*enabled);
            assert_eq!(prev, "PageUp");
            assert_eq!(next, "PageDown");
            assert_eq!(replay, "Insert");
        }
        other => panic!("unexpected notification: {:?}", note_kind(other)),
    }
}

fn note_kind(n: &Notification) -> &'static str {
    match n {
        Notification::SessionStatus { .. } => "SessionStatus",
        Notification::MassStatus { .. } => "MassStatus",
        Notification::SessionRegistered { .. } => "SessionRegistered",
    }
}

#[test]
fn mass_tier_owns_contested_binding_and_returns_it() {
    let mut reg = RegistryState::new();
    let mut os = FakeOs::new();
    let eff = reg
        .register_session(Some("F1"), Some("F2"), Some("F3"))
        .unwrap();
    os.apply(&eff.actions);

    // Enable MassAction with a binding identical to the live Session
    // binding F1: exactly one registration for F1 must remain.
    let eff2 = reg
        .set_mass_enabled(true, "F1", "F6", "F7", "F8")
        .unwrap();
    os.apply(&eff2.actions);
    assert_eq!(os.count_of("F1"), 1);
    assert!(os.holds("F2") && os.holds("F3"));
    assert!(os.holds("F6") && os.holds("F7") && os.holds("F8"));
    assert_eq!(os.live.len(), 6);
    // MassAction wins the contested binding while active.
    assert_eq!(reg.dispatch(&bind("F1")), Some(HotkeyAction::MassToggle));

    // Disabling MassAction afterwards restores the Session registration.
    let eff3 = reg
        .set_mass_enabled(false, "F1", "F6", "F7", "F8")
        .unwrap();
    os.apply(&eff3.actions);
    assert!(os.holds("F1") && os.holds("F2") && os.holds("F3"));
    assert!(!os.holds("F6") && !os.holds("F7") && !os.holds("F8"));
    assert_eq!(os.live.len(), 3);
    assert_eq!(reg.dispatch(&bind("F1")), Some(HotkeyAction::NavPlay { delta: -1 }));
}

#[test]
fn disabling_twice_issues_no_second_unregister() {
    let mut reg = RegistryState::new();
    let mut os = FakeOs::new();
    let eff = reg
        .register_session(Some("F1"), Some("F2"), Some("F3"))
        .unwrap();
    os.apply(&eff.actions);

    let off1 = reg.set_session_enabled(false);
    assert_eq!(off1.actions.len(), 3);
    os.apply(&off1.actions);
    assert_eq!(os.live.len(), 0);

    // The second disable is a pure no-op at the platform boundary.
    let off2 = reg.set_session_enabled(false);
    assert_eq!(off2.actions.len(), 0);
    assert_eq!(off2.notifications.len(), 1);

    // The MassAction tier behaves the same way.
    let m1 = reg.set_mass_enabled(false, "F6", "F7", "F8", "F9").unwrap();
    assert_eq!(m1.actions.len(), 0);
    let m2 = reg.set_mass_enabled(false, "F6", "F7", "F8", "F9").unwrap();
    assert_eq!(m2.actions.len(), 0);
}

#[test]
fn unbound_slots_never_produce_an_unregister() {
    let mut reg = RegistryState::new();
    let off = reg.set_session_enabled(false);
    assert_eq!(off.actions.len(), 0);
    let down = reg.teardown();
    assert_eq!(down.actions.len(), 0);
}

#[test]
fn teardown_unregisters_everything_once_and_is_idempotent() {
    let mut reg = RegistryState::new();
    let mut os = FakeOs::new();
    os.apply(&reg.register_session(Some("F1"), Some("F2"), Some("F3")).unwrap().actions);
    os.apply(&reg.set_mass_enabled(true, "F1", "F6", "F7", "F8").unwrap().actions);

    let down = reg.teardown();
    os.apply(&down.actions);
    assert_eq!(os.live.len(), 0);

    let again = reg.teardown();
    assert_eq!(again.actions.len(), 0);
}

#[test]
fn validation_failure_aborts_without_state_change() {
    let mut reg = RegistryState::new();
    let mut os = FakeOs::new();
    os.apply(&reg.register_session(Some("F1"), Some("F2"), Some("F3")).unwrap().actions);

    let err = reg
        .register_session(Some("F9"), Some("NotARealKeyName"), Some("F10"))
        .unwrap_err();
    match err {
        EngineError::InvalidAccelerator { slot, raw } => {
            assert_eq!(slot, HotkeySlot::SessionNext);
            assert_eq!(raw, "NotARealKeyName");
        }
        other => panic!("unexpected error kind: {}", other.message()),
    }
    // The old bindings still dispatch: nothing was mutated.
    assert_eq!(reg.dispatch(&bind("F1")), Some(HotkeyAction::NavPlay { delta: -1 }));
    assert_eq!(reg.dispatch(&bind("F9")), None);

    let err2 = reg
        .set_mass_enabled(true, "F6", "Bogus", "F7", "F8")
        .unwrap_err();
    match err2 {
        EngineError::InvalidAccelerator { slot, raw } => {
            assert_eq!(slot, HotkeySlot::MassPlayCurrent);
            assert_eq!(raw, "Bogus");
        }
        other => panic!("unexpected error kind: {}", other.message()),
    }
    assert_eq!(reg.dispatch(&bind("F6")), None);
}

#[test]
fn enabling_an_enabled_tier_issues_nothing() {
    let mut reg = RegistryState::new();
    let mut os = FakeOs::new();
    os.apply(&reg.register_session(Some("F1"), Some("F2"), Some("F3")).unwrap().actions);
    let on = reg.set_session_enabled(true);
    assert_eq!(on.actions.len(), 0);
    assert_eq!(os.live.len(), 3);
}

#[test]
fn reenabling_registers_the_stored_bindings() {
    let mut reg = RegistryState::new();
    let mut os = FakeOs::new();
    os.apply(&reg.register_session(Some("F1"), Some("F2"), Some("F3")).unwrap().actions);
    os.apply(&reg.set_session_enabled(false).actions);
    assert_eq!(os.live.len(), 0);
    let on = reg.set_session_enabled(true);
    os.apply(&on.actions);
    assert!(os.holds("F1") && os.holds("F2") && os.holds("F3"));
    assert!(matches!(
        on.notifications[0],
        Notification::SessionStatus { enabled: true }
    ));
}

#[test]
fn dispatch_follows_fixed_priority_order() {
    let mut reg = RegistryState::new();
    reg.register_session(Some("F1"), Some("F2"), Some("F3")).unwrap();
    reg.set_mass_enabled(true, "F5", "F6", "F7", "F8").unwrap();
    assert_eq!(reg.dispatch(&bind("F5")), Some(HotkeyAction::MassToggle));
    assert_eq!(reg.dispatch(&bind("F6")), Some(HotkeyAction::MassPlayCurrent));
    assert_eq!(reg.dispatch(&bind("F8")), Some(HotkeyAction::MassPrev));
    assert_eq!(reg.dispatch(&bind("F7")), Some(HotkeyAction::MassNext));
    assert_eq!(reg.dispatch(&bind("F1")), Some(HotkeyAction::NavPlay { delta: -1 }));
    assert_eq!(reg.dispatch(&bind("F2")), Some(HotkeyAction::NavPlay { delta: 1 }));
    assert_eq!(reg.dispatch(&bind("F3")), Some(HotkeyAction::ReplayCurrent));
    assert_eq!(reg.dispatch(&bind("F12")), None);

    // With the Session tier off, only MassAction bindings dispatch.
    reg.set_session_enabled(false);
    assert_eq!(reg.dispatch(&bind("F1")), None);
    assert_eq!(reg.dispatch(&bind("F5")), Some(HotkeyAction::MassToggle));
}

#[test]
fn equal_accelerators_in_two_session_slots_are_handled_once() {
    let mut reg = RegistryState::new();
    let mut os = FakeOs::new();
    // The same binding spelled two ways lands in two slots; the platform
    // sees exactly one registration and one unregistration for it.
    let eff = reg
        .register_session(Some("Ctrl+Shift+P"), Some("shift+ctrl+P"), Some("F3"))
        .unwrap();
    os.apply(&eff.actions);
    assert_eq!(os.live.len(), 2);
    assert_eq!(os.count_of("Ctrl+Shift+P"), 1);
    let down = reg.teardown();
    os.apply(&down.actions);
    assert_eq!(os.live.len(), 0);
}
