//! The clipboard watcher: a cancellable background polling task, modelled as
//! a control flag plus a pure per-iteration step.
//!
//! The embedding owns the actual task: `start` tells it whether to spawn
//! one, `stop` tells it whether there is one to join, and the task body
//! calls `watcher_step` once per poll with the flag's current value, the
//! last observed text and the fresh clipboard reading.  Because the step
//! emits nothing and asks to cease as soon as the flag is off, no
//! clipboard-change notification survives a completed `stop`.

use vstd::prelude::*;
use vstd::string::*;

use crate::text::{trim_spec, trimmed};

verus! {

/// The watcher's control state: at most one background task is alive, and
/// exactly when `running` is set.
pub struct WatcherControl {
    pub running: bool,
}

impl WatcherControl {
    /// A stopped watcher.
    pub fn new() -> (r: WatcherControl)
        ensures
            !r.running,
    {
        WatcherControl { running: false }
    }

    /// Requests the watcher to run.  Returns whether the embedding must
    /// spawn the background task: starting an already-running watcher is a
    /// no-op returning success, and never spawns a second task.
    pub fn start(&mut self) -> (spawn: bool)
        ensures
            final(self).running,
            spawn == !old(self).running,
    {
        let was = self.running;
        self.running = true;
        !was
    }

    /// Requests the watcher to cease.  Returns whether the embedding must
    /// join the background task before returning to its caller — joining
    /// guarantees that no notification is delivered after `stop` returns.
    /// Stopping an already-stopped watcher is a no-op with nothing to join.
    pub fn stop(&mut self) -> (join: bool)
        ensures
            !final(self).running,
            join == old(self).running,
    {
        let was = self.running;
        self.running = false;
        was
    }
}

/// The view of an optional owned string.
pub open spec fn otext(o: Option<String>) -> Option<Seq<char>> {
    match o {
        Some(s) => Some(s@),
        None => None,
    }
}

/// What one raw clipboard reading amounts to: the trimmed text, with read
/// failures (`None`) and empty or whitespace-only content both counting as
/// "no observation".
pub open spec fn observation_spec(reading: Option<Seq<char>>) -> Option<Seq<char>> {
    match reading {
        Some(t) => if trim_spec(t).len() > 0 {
            Some(trim_spec(t))
        } else {
            None
        },
        None => None,
    }
}

/// One iteration of the polling loop, as a value: whether to keep polling,
/// the new "last observed" text, and the notification to emit, if any.
pub open spec fn watcher_step_spec(
    running: bool,
    last: Option<Seq<char>>,
    reading: Option<Seq<char>>,
) -> (bool, Option<Seq<char>>, Option<Seq<char>>) {
    if !running {
        (false, last, None)
    } else {
        match observation_spec(reading) {
            Some(t) => if last == Some(t) {
                (true, last, None)
            } else {
                (true, Some(t), Some(t))
            },
            None => (true, last, None),
        }
    }
}

/// One iteration of the polling loop: checks the running flag first, cleans
/// the fresh reading, debounces unchanged content, and emits a notification
/// only for genuinely new text.  Returns `(keep_going, new_last, emit)`.
pub fn watcher_step(running: bool, last: Option<String>, reading: Option<&str>) -> (r: (
    bool,
    Option<String>,
    Option<String>,
))
    ensures
        ({
            let rv = match reading {
                Some(s) => Some(s@),
                None => None,
            };
            let m = watcher_step_spec(running, otext(last), rv);
            r.0 == m.0 && otext(r.1) == m.1 && otext(r.2) == m.2
        }),
{
    if !running {
        return (false, last, None);
    }
    let obs: Option<String> = match reading {
        Some(s) => {
            let t = trimmed(s);
            if t.as_str().is_empty() {
                None
            } else {
                Some(t)
            }
        },
        None => None,
    };
    match obs {
        Some(t) => {
            let same = match &last {
                Some(l) => *l == t,
                None => false,
            };
            if same {
                (true, last, None)
            } else {
                (true, Some(t.clone()), Some(t))
            }
        },
        None => (true, last, None),
    }
}

/// Law: once the watcher has been stopped, an iteration of the polling loop
/// emits no notification and asks the task to cease — whatever the last
/// observation and the clipboard hold.
pub proof fn lemma_no_notification_after_stop(
    last: Option<Seq<char>>,
    reading: Option<Seq<char>>,
)
    ensures
        watcher_step_spec(false, last, reading).2 is None,
        !watcher_step_spec(false, last, reading).0,
{
}

} // verus!
