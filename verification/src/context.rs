//! The navigation context: the last-known mapcode and the selected command
//! mode, set by the UI and read back by it.

use vstd::prelude::*;
use vstd::string::*;

use crate::commands::CommandMode;
use crate::text::{trim_spec, trimmed};

verus! {

/// The last-known mapcode and command mode.  Process-scoped, mutated only
/// by explicit context updates from the UI.
pub struct NpContext {
    pub current_mapcode: Option<String>,
    pub command_mode: CommandMode,
}

impl NpContext {
    /// The starting context: no mapcode, default command mode.
    pub fn new() -> (r: NpContext)
        ensures
            r.current_mapcode is None,
            r.command_mode == CommandMode::BangNp,
    {
        NpContext { current_mapcode: None, command_mode: CommandMode::BangNp }
    }

    /// Replaces the context: the mapcode is trimmed, and one that is empty
    /// after trimming clears the slot.
    pub fn set_context(&mut self, mapcode: Option<&str>, mode: CommandMode)
        ensures
            final(self).command_mode == mode,
            ({
                let m = match mapcode {
                    Some(s) => trim_spec(s@),
                    None => Seq::<char>::empty(),
                };
                if m.len() > 0 {
                    final(self).current_mapcode matches Some(t) && t@ == m
                } else {
                    final(self).current_mapcode is None
                }
            }),
    {
        proof {
            assert(trim_spec(Seq::<char>::empty()).len() == 0);
        }
        self.current_mapcode = match mapcode {
            Some(s) => {
                let t = trimmed(s);
                if t.as_str().is_empty() {
                    None
                } else {
                    Some(t)
                }
            },
            None => None,
        };
        self.command_mode = mode;
    }
}

} // verus!
