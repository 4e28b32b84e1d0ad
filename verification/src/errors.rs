//! Error kinds surfaced by the engine's fallible operations.

use vstd::prelude::*;
use vstd::string::*;

verus! {

/// The logical hotkey slot an accelerator was destined for, named in
/// validation errors so the caller knows which input was rejected.
#[derive(Clone, Copy, PartialEq, Eq, Structural, Debug)]
pub enum HotkeySlot {
    SessionPrev,
    SessionNext,
    SessionReplay,
    MassToggle,
    MassPlayCurrent,
    MassNext,
    MassPrev,
}

/// What the engine reports when an operation cannot complete.
///
/// Validation failures (`InvalidAccelerator`, `EmptyInput`, `InvalidRange`)
/// abort an operation before any state mutation or platform action.
/// `LockUnavailable` is surfaced by an embedding when the synchronization
/// primitive guarding the shared state is poisoned.  `Platform` wraps a
/// failure reported by the platform capability layer.
#[derive(Debug)]
pub enum EngineError {
    InvalidAccelerator { slot: HotkeySlot, raw: String },
    EmptyInput,
    InvalidRange,
    LockUnavailable,
    Platform { message: String },
}

/// The slot's name as it appears in error messages.
pub open spec fn slot_name_spec(slot: HotkeySlot) -> Seq<char> {
    match slot {
        HotkeySlot::SessionPrev => "prevMap"@,
        HotkeySlot::SessionNext => "nextMap"@,
        HotkeySlot::SessionReplay => "replayCurrent"@,
        HotkeySlot::MassToggle => "toggle"@,
        HotkeySlot::MassPlayCurrent => "playCurrent"@,
        HotkeySlot::MassNext => "next"@,
        HotkeySlot::MassPrev => "prev"@,
    }
}

/// The human-readable message for each error kind.
pub open spec fn error_message_spec(e: &EngineError) -> Seq<char> {
    match e {
        EngineError::InvalidAccelerator { slot, raw } => "invalid hotkey ("@ + slot_name_spec(
            *slot,
        ) + "): "@ + raw@,
        EngineError::EmptyInput => "empty input"@,
        EngineError::InvalidRange => "invalid categoryNumber"@,
        EngineError::LockUnavailable => "state lock poisoned"@,
        EngineError::Platform { message } => message@,
    }
}

impl HotkeySlot {
    /// The slot's name, for error messages and notifications.
    pub fn name(&self) -> (r: &'static str)
        ensures
            r@ == slot_name_spec(*self),
    {
        match self {
            HotkeySlot::SessionPrev => "prevMap",
            HotkeySlot::SessionNext => "nextMap",
            HotkeySlot::SessionReplay => "replayCurrent",
            HotkeySlot::MassToggle => "toggle",
            HotkeySlot::MassPlayCurrent => "playCurrent",
            HotkeySlot::MassNext => "next",
            HotkeySlot::MassPrev => "prev",
        }
    }
}

impl EngineError {
    /// A human-readable rendering of the error, surfaced to the UI.
    pub fn message(&self) -> (r: String)
        ensures
            r@ == error_message_spec(self),
    {
        match self {
            EngineError::InvalidAccelerator { slot, raw } => {
                let mut m = "invalid hotkey (".to_owned();
                m.append(slot.name());
                m.append("): ");
                m.append(raw.as_str());
                m
            },
            EngineError::EmptyInput => "empty input".to_owned(),
            EngineError::InvalidRange => "invalid categoryNumber".to_owned(),
            EngineError::LockUnavailable => "state lock poisoned".to_owned(),
            EngineError::Platform { message } => message.clone(),
        }
    }
}

} // verus!
