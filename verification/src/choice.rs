use vstd::prelude::*;
use crate::callstack::{Thread, thread_eq};
use crate::path::{Path, path_eq};

verus! {

/// A generated, player-facing option: what to show, where selecting it
/// diverts to, and which thread it was generated on. The thread snapshot
/// lets the choice be resumed correctly even after the live stack has
/// moved on or dropped that thread.
pub struct Choice {
    pub text: String,
    pub target_path: Path,
    /// Identity of the thread that was current when this choice was
    /// generated; fixed for the life of the choice.
    pub original_thread_index: u32,
    /// Deep copy of that thread taken at generation time; required by the
    /// time the choice is selected or persisted.
    pub thread_at_generation: Option<Thread>,
}

/// The player-observable identity of a choice: same text, same target,
/// same originating-thread identity.
pub open spec fn choice_core_eq(a: &Choice, b: &Choice) -> bool {
    &&& a.text@ == b.text@
    &&& path_eq(&a.target_path, &b.target_path)
    &&& a.original_thread_index == b.original_thread_index
}

impl Choice {
    /// A choice generated on `thread`; the snapshot is recorded and the
    /// originating identity taken from it.
    pub fn new(text: String, target_path: Path, thread: Thread) -> (r: Choice)
        ensures
            r.text@ == text@,
            path_eq(&r.target_path, &target_path),
            r.original_thread_index == thread.thread_index,
            r.thread_at_generation matches Some(t) && thread_eq(&t, &thread),
    {
        let original_thread_index = thread.thread_index;
        Choice { text, target_path, original_thread_index, thread_at_generation: Option::Some(thread) }
    }

    pub fn get_thread_at_generation(&self) -> (r: Option<&Thread>)
        ensures
            match self.thread_at_generation {
                Some(t) => r matches Some(x) && *x == t,
                None => r is None,
            },
    {
        match &self.thread_at_generation {
            Option::Some(t) => Option::Some(t),
            Option::None => Option::None,
        }
    }

    pub fn set_thread_at_generation(&mut self, t: Thread)
        ensures
            final(self).thread_at_generation == Some(t),
            final(self).text == old(self).text,
            final(self).target_path == old(self).target_path,
            final(self).original_thread_index == old(self).original_thread_index,
    {
        self.thread_at_generation = Option::Some(t);
    }
}

} // verus!
