use vstd::prelude::*;
use crate::graph::StoryGraph;
use crate::pointer::Pointer;
use crate::render::{dec_of, path_chars_of, path_string_of, u64_to_dec_string};

verus! {

/// The rendered position of a non-null pointer: the container's dotted
/// path followed by the child index (the index alone at the root).
pub open spec fn pointer_chars(g: StoryGraph, c: int, index: int) -> Seq<char> {
    if path_chars_of(g, c).len() == 0 {
        dec_of(index)
    } else {
        path_chars_of(g, c) + seq!['.'] + dec_of(index)
    }
}

/// The full log entry for a reported condition: severity first, the
/// current position when there is one, then the message itself.
pub open spec fn report_chars(g: StoryGraph, ptr: Pointer, message: Seq<char>, is_warning: bool) -> Seq<char> {
    let head = if is_warning {
        "RUNTIME WARNING: "@
    } else {
        "RUNTIME ERROR: "@
    };
    match ptr.container {
        Some(c) => head + "("@ + pointer_chars(g, c as int, ptr.index as int) + "): "@ + message,
        None => head + message,
    }
}

/// The story-level error surface: the graph being executed, the current
/// execution cursor (for annotating reports with a position), the error
/// and warning logs, and whether a hard error has ended evaluation.
pub struct Story {
    pub graph: StoryGraph,
    pub current_pointer: Pointer,
    pub current_errors: Vec<String>,
    pub current_warnings: Vec<String>,
    pub evaluation_ended: bool,
}

impl Story {
    pub open spec fn wf(self) -> bool {
        &&& self.graph.wf()
        &&& self.current_pointer.valid(self.graph)
    }

    /// A fresh story over `graph`: null cursor, empty logs, evaluation
    /// running.
    pub fn new(graph: StoryGraph) -> (r: Story)
        requires
            graph.wf(),
        ensures
            r.wf(),
            r.graph == graph,
            r.current_pointer.is_null_spec(),
            r.current_errors@.len() == 0,
            r.current_warnings@.len() == 0,
            !r.evaluation_ended,
    {
        Story {
            graph,
            current_pointer: Pointer::null(),
            current_errors: Vec::new(),
            current_warnings: Vec::new(),
            evaluation_ended: false,
        }
    }

    pub fn get_current_pointer(&self) -> (r: Pointer)
        ensures
            r == self.current_pointer,
    {
        self.current_pointer
    }

    pub fn set_current_pointer(&mut self, p: Pointer)
        requires
            old(self).wf(),
            p.valid(old(self).graph),
        ensures
            final(self).current_pointer == p,
            final(self).graph == old(self).graph,
            final(self).current_errors == old(self).current_errors,
            final(self).current_warnings == old(self).current_warnings,
            final(self).evaluation_ended == old(self).evaluation_ended,
            final(self).wf(),
    {
        self.current_pointer = p;
    }

    /// Report a runtime condition. The rendered entry names the severity
    /// and, when the cursor is non-null, the current path. A warning only
    /// extends the warning log; a hard error extends the error log and
    /// ends the current evaluation, so no further stepping may produce
    /// output.
    pub fn add_error(&mut self, message: &str, is_warning: bool)
        requires
            old(self).wf(),
        ensures
            final(self).graph == old(self).graph,
            final(self).current_pointer == old(self).current_pointer,
            final(self).wf(),
            !is_warning ==> {
                &&& final(self).current_errors@.len() == old(self).current_errors@.len() + 1
                &&& forall|i: int| 0 <= i < old(self).current_errors@.len()
                        ==> final(self).current_errors@[i] == old(self).current_errors@[i]
                &&& final(self).current_errors@.last()@ == report_chars(
                        old(self).graph,
                        old(self).current_pointer,
                        message@,
                        false,
                    )
                &&& final(self).current_warnings == old(self).current_warnings
                &&& final(self).evaluation_ended
            },
            is_warning ==> {
                &&& final(self).current_warnings@.len() == old(self).current_warnings@.len() + 1
                &&& forall|i: int| 0 <= i < old(self).current_warnings@.len()
                        ==> final(self).current_warnings@[i] == old(self).current_warnings@[i]
                &&& final(self).current_warnings@.last()@ == report_chars(
                        old(self).graph,
                        old(self).current_pointer,
                        message@,
                        true,
                    )
                &&& final(self).current_errors == old(self).current_errors
                &&& final(self).evaluation_ended == old(self).evaluation_ended
            },
    {
        let mut m = if is_warning {
            String::from_str("RUNTIME WARNING: ")
        } else {
            String::from_str("RUNTIME ERROR: ")
        };
        match self.current_pointer.container {
            Option::Some(c) => {
                m.append("(");
                let base = path_string_of(&self.graph, c);
                if !base.as_str().is_empty() {
                    proof {
                        reveal_strlit(".");
                        assert(("."@) =~= seq!['.']);
                    }
                    m.append(base.as_str());
                    m.append(".");
                }
                let idx = u64_to_dec_string(self.current_pointer.index as u64);
                m.append(idx.as_str());
                m.append("): ");
                m.append(message);
                proof {
                    assert(m@ =~= report_chars(
                        self.graph,
                        self.current_pointer,
                        message@,
                        is_warning,
                    ));
                }
            },
            Option::None => {
                m.append(message);
            },
        }
        if is_warning {
            self.current_warnings.push(m);
        } else {
            self.current_errors.push(m);
            self.evaluation_ended = true;
        }
    }

    /// Clear both logs without touching execution state; used between
    /// independent evaluation turns.
    pub fn reset_errors(&mut self)
        ensures
            final(self).current_errors@.len() == 0,
            final(self).current_warnings@.len() == 0,
            final(self).graph == old(self).graph,
            final(self).current_pointer == old(self).current_pointer,
            final(self).evaluation_ended == old(self).evaluation_ended,
    {
        self.current_errors = Vec::new();
        self.current_warnings = Vec::new();
    }

    /// Whether the error log holds any entry.
    pub fn has_error(&self) -> (r: bool)
        ensures
            r == (self.current_errors@.len() > 0),
    {
        self.current_errors.len() > 0
    }

    /// The hard errors reported during evaluation, in order.
    pub fn get_current_errors(&self) -> (r: &Vec<String>)
        ensures
            r == &self.current_errors,
    {
        &self.current_errors
    }

    /// The warnings reported during evaluation, in order.
    pub fn get_current_warnings(&self) -> (r: &Vec<String>)
        ensures
            r == &self.current_warnings,
    {
        &self.current_warnings
    }

    /// Whether a hard error has ended the current evaluation.
    pub fn has_ended(&self) -> (r: bool)
        ensures
            r == self.evaluation_ended,
    {
        self.evaluation_ended
    }
}

} // verus!
