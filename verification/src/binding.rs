//! Shortcut bindings: parsed, normalized key combinations.
//!
//! A binding is what the platform's shortcut parser makes of a normalized
//! accelerator string — a modifier bit set plus one canonical key.  Two
//! bindings are equal exactly when parser produced the same modifier set and
//! key, however the raw accelerators were spelled, so equality is order- and
//! case-insensitive in the modifiers and canonical in the key.

use vstd::prelude::*;
use vstd::string::*;

use crate::errors::{EngineError, HotkeySlot};
use crate::normalize::{normalize_shortcut_string, normalize_spec};

verus! {

/// What the shortcut subsystem's parser makes of an accelerator string:
/// `None` when the string is rejected, otherwise the modifier bit set and
/// the canonical key name.  The outcome is a function of the string alone.
pub uninterp spec fn shortcut_parse(s: Seq<char>) -> Option<(u32, Seq<char>)>;

/// A parsed key combination.  Immutable once constructed; compared by its
/// modifier set and key alone.
#[derive(Debug)]
pub struct ShortcutBinding {
    /// The modifier bit set, as the shortcut subsystem encodes it.
    pub mods: u32,
    /// The canonical name of the single non-modifier key.
    pub key: String,
}

/// The mathematical value of a binding: its modifier bits and key name.
pub type BindingModel = (u32, Seq<char>);

impl ShortcutBinding {
    /// The mathematical value of the binding.
    pub open spec fn model(&self) -> BindingModel {
        (self.mods, self.key@)
    }

    /// Equality of bindings: same modifier set and same key.
    pub fn same_as(&self, other: &ShortcutBinding) -> (r: bool)
        ensures
            r == (self.model() == other.model()),
    {
        self.mods == other.mods && self.key == other.key
    }
}

impl Clone for ShortcutBinding {
    /// Cloning preserves the binding's value.
    fn clone(&self) -> (r: Self)
        ensures
            r.model() == self.model(),
    {
        ShortcutBinding { mods: self.mods, key: self.key.clone() }
    }
}

/// Relies on `global_hotkey::hotkey::HotKey`'s `FromStr` impl to turn an
/// accelerator string into a hotkey.  On success the call yields the
/// hotkey's modifier
/// bit set and the `Display` name of its key code; both are functions of
/// the accelerator text alone (the parser's platform-family aliases, such
/// as the command-or-control modifier, resolve to constants fixed at build
/// time), and the `Display` name is distinct for every key code, so the
/// pair carries exactly the hotkey's identity.
#[verifier::external_body]
fn parse_shortcut(s: &str) -> (r: Option<ShortcutBinding>)
    ensures
        (match r {
            Some(b) => shortcut_parse(s@) == Some(b.model()),
            None => shortcut_parse(s@) is None,
        }),
{
    match <global_hotkey::hotkey::HotKey as std::str::FromStr>::from_str(s) {
        Ok(hk) => Some(ShortcutBinding { mods: hk.mods.bits(), key: hk.key.to_string() }),
        Err(_) => None,
    }
}

/// Whether a raw accelerator, once normalized, is accepted by the shortcut
/// subsystem's parser.
pub open spec fn accel_parses(raw: Seq<char>) -> bool {
    shortcut_parse(normalize_spec(raw)) is Some
}

/// The binding a raw accelerator stands for, when it parses.
pub open spec fn accel_binding(raw: Seq<char>) -> BindingModel
    recommends
        accel_parses(raw),
{
    shortcut_parse(normalize_spec(raw))->0
}

/// Normalizes a raw accelerator string and parses it into a binding.
/// Failure names the slot the accelerator was destined for and echoes the
/// raw string, and happens exactly when the parser rejects the normalized
/// form.
pub fn parse_accelerator(raw: &str, slot: HotkeySlot) -> (r: Result<ShortcutBinding, EngineError>)
    ensures
        match r {
            Ok(b) => accel_parses(raw@) && b.model() == accel_binding(raw@),
            Err(e) => {
                &&& !accel_parses(raw@)
                &&& e matches EngineError::InvalidAccelerator { slot: s, raw: w } && s == slot
                    && w@ == raw@
            },
        },
{
    let normalized = normalize_shortcut_string(raw);
    match parse_shortcut(normalized.as_str()) {
        Some(b) => Ok(b),
        None => Err(
            EngineError::InvalidAccelerator { slot, raw: raw.to_owned() },
        ),
    }
}

} // verus!
