//! The keystroke injection protocol: clipboard write, modifier-key
//! chording, paste, confirmation keystrokes, and best-effort clipboard
//! restoration, as a verified state machine.
//!
//! The machine decides; the embedding performs.  Each call to `advance`
//! consumes the report of the previous command and yields the next one.
//! The protocol is: read the current clipboard (best-effort), write the
//! payload, tap the confirm key to open the input field, hold the paste
//! modifier, pause, tap the paste key, pause, release the modifier, wait
//! for the paste to settle, tap the confirm key again to submit, and
//! finally restore the saved clipboard content if there was any.  The first
//! hard failure aborts the protocol but restoration is still attempted; a
//! restoration failure is swallowed, never surfaced.

use vstd::prelude::*;
use vstd::string::*;

use crate::errors::EngineError;

verus! {

/// Where the protocol stands: which command is in flight.
#[derive(Clone, Copy, PartialEq, Eq, Structural, Debug)]
pub enum InjectPhase {
    ReadingSaved,
    Writing,
    Opening,
    Pressing,
    PauseAfterPress,
    Tapping,
    PauseAfterTap,
    Releasing,
    Settling,
    Submitting,
    Restoring,
    Finished,
}

/// A command the embedding must perform next.
pub enum InjectCommand {
    /// Read the current clipboard text; report `ReadBack`, mapping read
    /// failures to `None` (absence is not an error).
    ReadClipboard,
    /// Write this text to the clipboard.
    WriteClipboard(String),
    /// Tap the confirm key (Enter) in the foreground window.
    TapConfirmKey,
    /// Hold the paste modifier down: the platform command key when `meta`
    /// is set, Control otherwise.
    PressPasteModifier { meta: bool },
    /// Sleep this many milliseconds; pauses never fail.
    Pause(u64),
    /// Tap the paste letter key while the modifier is held.
    TapPasteKey,
    /// Release the paste modifier.
    ReleasePasteModifier,
    /// Restore this previously-read clipboard content, best-effort.
    RestoreClipboard(String),
    /// The protocol is over: hand this result to the caller.  On success it
    /// carries the injected command text.
    Finish(Result<String, EngineError>),
}

/// What the embedding reports back about the last command.
pub enum StepReport {
    /// The result of `ReadClipboard`.
    ReadBack(Option<String>),
    /// The last command succeeded.
    Completed,
    /// The last command failed with this message.
    Failed(String),
}

/// The injection protocol's state.
pub struct InjectionMachine {
    /// The text being injected.
    pub text: String,
    /// Whether the platform's paste chord uses the command key.
    pub meta_paste: bool,
    /// The clipboard content read at the start, to be restored at the end.
    pub saved: Option<String>,
    /// The first hard failure, held while restoration is attempted.
    pub failure: Option<String>,
    /// Where the protocol stands.
    pub phase: InjectPhase,
}

/// Whether a report is the kind the machine's phase expects: the read-back
/// for the initial read, and success or failure for every later command —
/// except that pauses never fail.
pub open spec fn report_fits(phase: InjectPhase, report: StepReport) -> bool {
    match phase {
        InjectPhase::ReadingSaved => report is ReadBack,
        InjectPhase::PauseAfterPress | InjectPhase::PauseAfterTap | InjectPhase::Settling =>
            report is Completed,
        InjectPhase::Writing | InjectPhase::Opening | InjectPhase::Pressing | InjectPhase::Tapping
            | InjectPhase::Releasing | InjectPhase::Submitting | InjectPhase::Restoring => (
        report is Completed || report is Failed),
        InjectPhase::Finished => false,
    }
}

/// The result the protocol is heading for once restoration (if any) is
/// done: the first hard failure, or the injected text.
pub open spec fn pending_result(m: InjectionMachine) -> Result<String, EngineError> {
    match m.failure {
        Some(msg) => Err(EngineError::Platform { message: msg }),
        None => Ok(m.text),
    }
}

/// The transition relation of the protocol: from a machine state and the
/// report of the last command to the next state and command.  A hard
/// failure diverts to restoration when clipboard content was saved, else
/// finishes at once; the restoration step's own outcome is ignored.
pub open spec fn advance_spec(m: InjectionMachine, report: StepReport) -> (
    InjectionMachine,
    InjectCommand,
) {
    match report {
        StepReport::ReadBack(prev) => (
            InjectionMachine { saved: prev, phase: InjectPhase::Writing, ..m },
            InjectCommand::WriteClipboard(m.text),
        ),
        StepReport::Failed(msg) => if m.phase is Restoring {
            // Restoration failure is swallowed: finish with the result that
            // was already pending.
            (InjectionMachine { phase: InjectPhase::Finished, ..m }, InjectCommand::Finish(
                pending_result(m),
            ))
        } else {
            let failed = InjectionMachine { failure: Some(msg), ..m };
            match m.saved {
                Some(prev) => (
                    InjectionMachine { phase: InjectPhase::Restoring, ..failed },
                    InjectCommand::RestoreClipboard(prev),
                ),
                None => (
                    InjectionMachine { phase: InjectPhase::Finished, ..failed },
                    InjectCommand::Finish(pending_result(failed)),
                ),
            }
        },
        StepReport::Completed => match m.phase {
            InjectPhase::Writing => (
                InjectionMachine { phase: InjectPhase::Opening, ..m },
                InjectCommand::TapConfirmKey,
            ),
            InjectPhase::Opening => (
                InjectionMachine { phase: InjectPhase::Pressing, ..m },
                InjectCommand::PressPasteModifier { meta: m.meta_paste },
            ),
            InjectPhase::Pressing => (
                InjectionMachine { phase: InjectPhase::PauseAfterPress, ..m },
                InjectCommand::Pause(20),
            ),
            InjectPhase::PauseAfterPress => (
                InjectionMachine { phase: InjectPhase::Tapping, ..m },
                InjectCommand::TapPasteKey,
            ),
            InjectPhase::Tapping => (
                InjectionMachine { phase: InjectPhase::PauseAfterTap, ..m },
                InjectCommand::Pause(20),
            ),
            InjectPhase::PauseAfterTap => (
                InjectionMachine { phase: InjectPhase::Releasing, ..m },
                InjectCommand::ReleasePasteModifier,
            ),
            InjectPhase::Releasing => (
                InjectionMachine { phase: InjectPhase::Settling, ..m },
                InjectCommand::Pause(250),
            ),
            InjectPhase::Settling => (
                InjectionMachine { phase: InjectPhase::Submitting, ..m },
                InjectCommand::TapConfirmKey,
            ),
            InjectPhase::Submitting => match m.saved {
                Some(prev) => (
                    InjectionMachine { phase: InjectPhase::Restoring, ..m },
                    InjectCommand::RestoreClipboard(prev),
                ),
                None => (
                    InjectionMachine { phase: InjectPhase::Finished, ..m },
                    InjectCommand::Finish(pending_result(m)),
                ),
            },
            InjectPhase::Restoring => (
                InjectionMachine { phase: InjectPhase::Finished, ..m },
                InjectCommand::Finish(pending_result(m)),
            ),
            // The remaining phases never receive a plain completion:
            // `report_fits` rules them out.
            _ => (m, InjectCommand::ReadClipboard),
        },
    }
}

impl InjectionMachine {
    /// Begins the protocol for one payload.  The first command reads the
    /// clipboard so its content can be restored at the end.
    pub fn begin(text: String, meta_paste: bool) -> (r: (InjectionMachine, InjectCommand))
        ensures
            r.0.text == text,
            r.0.meta_paste == meta_paste,
            r.0.saved is None,
            r.0.failure is None,
            r.0.phase == InjectPhase::ReadingSaved,
            r.1 is ReadClipboard,
    {
        (
            InjectionMachine {
                text,
                meta_paste,
                saved: None,
                failure: None,
                phase: InjectPhase::ReadingSaved,
            },
            InjectCommand::ReadClipboard,
        )
    }

    /// Consumes the report of the previous command and yields the next one,
    /// exactly as the transition relation prescribes.
    pub fn advance(&mut self, report: StepReport) -> (cmd: InjectCommand)
        requires
            old(self).phase != InjectPhase::Finished,
            report_fits(old(self).phase, report),
        ensures
            (*final(self), cmd) == advance_spec(*old(self), report),
    {
        match report {
            StepReport::ReadBack(prev) => {
                self.saved = prev;
                self.phase = InjectPhase::Writing;
                InjectCommand::WriteClipboard(self.text.clone())
            },
            StepReport::Failed(msg) => {
                if self.phase == InjectPhase::Restoring {
                    self.phase = InjectPhase::Finished;
                    match &self.failure {
                        Some(m) => InjectCommand::Finish(
                            Err(EngineError::Platform { message: m.clone() }),
                        ),
                        None => InjectCommand::Finish(Ok(self.text.clone())),
                    }
                } else {
                    self.failure = Some(msg);
                    let prev = match &self.saved {
                        Some(p) => Some(p.clone()),
                        None => None,
                    };
                    match prev {
                        Some(p) => {
                            self.phase = InjectPhase::Restoring;
                            InjectCommand::RestoreClipboard(p)
                        },
                        None => {
                            self.phase = InjectPhase::Finished;
                            match &self.failure {
                                Some(m) => InjectCommand::Finish(
                                    Err(EngineError::Platform { message: m.clone() }),
                                ),
                                None => InjectCommand::Finish(Ok(self.text.clone())),
                            }
                        },
                    }
                }
            },
            StepReport::Completed => {
                match self.phase {
                    InjectPhase::Writing => {
                        self.phase = InjectPhase::Opening;
                        InjectCommand::TapConfirmKey
                    },
                    InjectPhase::Opening => {
                        self.phase = InjectPhase::Pressing;
                        InjectCommand::PressPasteModifier { meta: self.meta_paste }
                    },
                    InjectPhase::Pressing => {
                        self.phase = InjectPhase::PauseAfterPress;
                        InjectCommand::Pause(20)
                    },
                    InjectPhase::PauseAfterPress => {
                        self.phase = InjectPhase::Tapping;
                        InjectCommand::TapPasteKey
                    },
                    InjectPhase::Tapping => {
                        self.phase = InjectPhase::PauseAfterTap;
                        InjectCommand::Pause(20)
                    },
                    InjectPhase::PauseAfterTap => {
                        self.phase = InjectPhase::Releasing;
                        InjectCommand::ReleasePasteModifier
                    },
                    InjectPhase::Releasing => {
                        self.phase = InjectPhase::Settling;
                        InjectCommand::Pause(250)
                    },
                    InjectPhase::Settling => {
                        self.phase = InjectPhase::Submitting;
                        InjectCommand::TapConfirmKey
                    },
                    InjectPhase::Submitting => {
                        let prev = match &self.saved {
                            Some(p) => Some(p.clone()),
                            None => None,
                        };
                        match prev {
                            Some(p) => {
                                self.phase = InjectPhase::Restoring;
                                InjectCommand::RestoreClipboard(p)
                            },
                            None => {
                                self.phase = InjectPhase::Finished;
                                match &self.failure {
                                    Some(m) => InjectCommand::Finish(
                                        Err(EngineError::Platform { message: m.clone() }),
                                    ),
                                    None => InjectCommand::Finish(Ok(self.text.clone())),
                                }
                            },
                        }
                    },
                    InjectPhase::Restoring => {
                        self.phase = InjectPhase::Finished;
                        match &self.failure {
                            Some(m) => InjectCommand::Finish(
                                Err(EngineError::Platform { message: m.clone() }),
                            ),
                            None => InjectCommand::Finish(Ok(self.text.clone())),
                        }
                    },
                    // Ruled out by `report_fits` in the precondition.
                    _ => InjectCommand::ReadClipboard,
                }
            },
        }
    }
}

} // verus!
