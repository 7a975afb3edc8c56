//! The capture decision: which samples of the focused application become
//! events in the log.

use vstd::prelude::*;
use crate::ignore::{is_ignored, is_ignored_spec};

verus! {

/// Remembers the application seen at the previous input event.
pub struct FocusTracker {
    last_seen: String,
}

impl FocusTracker {
    /// The application seen at the previous sample.
    pub closed spec fn last_seen(&self) -> Seq<char> {
        self.last_seen@
    }

    /// A tracker that has seen nothing yet.
    pub fn new() -> (r: FocusTracker)
        ensures
            r.last_seen() == Seq::<char>::empty(),
    {
        FocusTracker { last_seen: String::new() }
    }

    /// Takes one sample of the focused application. Returns whether it is a
    /// focus change to be logged: it differs from the previous sample and is
    /// not in the ignore set.
    pub fn observe(&mut self, app_name: &str) -> (r: bool)
        ensures
            final(self).last_seen() == app_name@,
            r == (app_name@ != old(self).last_seen() && !is_ignored_spec(app_name@)),
    {
        let current = app_name.to_owned();
        if current == self.last_seen {
            return false;
        }
        self.last_seen = current;
        !is_ignored(app_name)
    }
}

} // verus!
