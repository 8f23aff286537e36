use vstd::prelude::*;
use crate::pointer::Pointer;
use crate::graph::StoryGraph;

verus! {

/// Why a frame was pushed. A pop must supply the same tag; a mismatch is a
/// runtime error, never silently ignored.
#[derive(Clone, Copy, PartialEq, Eq, Structural, Debug)]
pub enum PushPopType {
    Tunnel,
    Function,
    FunctionEvaluationFromGame,
}

/// Errors raised by call-stack manipulation.
#[derive(Clone, Copy, PartialEq, Eq, Structural, Debug)]
pub enum StackError {
    /// A pop asked for a frame tag that the top frame was not pushed with,
    /// or tried to pop the base frame.
    UnbalancedPop,
    /// The last remaining thread cannot be popped.
    CannotPopThread,
}

/// One activation frame: the execution cursor plus frame-local state.
#[derive(Clone, Copy, Debug)]
pub struct Element {
    pub pointer: Pointer,
    /// Tag the frame was pushed with; the base frame of a thread has none.
    pub push_pop_type: Option<PushPopType>,
    pub in_expression_evaluation: bool,
}

impl Element {
    pub fn new(pointer: Pointer, push_pop_type: Option<PushPopType>, in_expression_evaluation: bool) -> (r: Element)
        ensures
            r == (Element { pointer, push_pop_type, in_expression_evaluation }),
    {
        Element { pointer, push_pop_type, in_expression_evaluation }
    }
}

/// An identified, independently copyable stack of frames. The index is
/// assigned once at creation and never changes; it is how a choice finds
/// the thread it was generated on, even long after.
pub struct Thread {
    pub elements: Vec<Element>,
    pub thread_index: u32,
}

/// Two threads are observably the same: same identity, same frames.
pub open spec fn thread_eq(a: &Thread, b: &Thread) -> bool {
    a.thread_index == b.thread_index && a.elements@ == b.elements@
}

impl Thread {
    pub fn new(thread_index: u32, first: Element) -> (r: Thread)
        ensures
            r.thread_index == thread_index,
            r.elements@ == seq![first],
    {
        let mut elements: Vec<Element> = Vec::new();
        elements.push(first);
        Thread { elements, thread_index }
    }

    /// Every frame's pointer refers to a container of the graph (or is null).
    pub open spec fn valid(self, g: StoryGraph) -> bool {
        forall|i: int| 0 <= i < self.elements@.len()
            ==> (#[trigger] self.elements@[i]).pointer.valid(g)
    }

    /// Runtime check of `valid`: every frame's pointer points into `g`.
    pub fn check_valid(&self, g: &StoryGraph) -> (r: bool)
        ensures
            r == self.valid(*g),
    {
        let mut i: usize = 0;
        while i < self.elements.len()
            invariant
                i <= self.elements@.len(),
                forall|j: int| 0 <= j < i ==> (#[trigger] self.elements@[j]).pointer.valid(*g),
            decreases self.elements@.len() - i,
        {
            if !self.elements[i].pointer.check_valid(g) {
                return false;
            }
            i = i + 1;
        }
        true
    }

    /// Deep, independent copy: the result observes the same identity and
    /// frame sequence but shares no mutable state with the original, so
    /// later mutation of either cannot be seen through the other.
    pub fn copy(&self) -> (r: Thread)
        ensures
            thread_eq(&r, self),
    {
        let mut elements: Vec<Element> = Vec::new();
        let mut i: usize = 0;
        while i < self.elements.len()
            invariant
                i <= self.elements@.len(),
                elements@ == self.elements@.subrange(0, i as int),
            decreases self.elements@.len() - i,
        {
            elements.push(self.elements[i]);
            proof {
                assert(elements@ =~= self.elements@.subrange(0, i + 1));
            }
            i = i + 1;
        }
        proof {
            assert(elements@ =~= self.elements@);
        }
        Thread { elements, thread_index: self.thread_index }
    }
}

/// The full nested execution state of one flow: an ordered set of threads,
/// the last of which is the current one, plus the counter that hands out
/// fresh thread identities.
pub struct CallStack {
    pub threads: Vec<Thread>,
    pub thread_counter: u32,
}

/// Two call stacks are observably the same.
pub open spec fn stack_eq(a: &CallStack, b: &CallStack) -> bool {
    &&& a.thread_counter == b.thread_counter
    &&& a.threads@.len() == b.threads@.len()
    &&& forall|i: int| 0 <= i < a.threads@.len()
            ==> thread_eq(&a.threads@[i], &b.threads@[i])
}

/// The frame-push relation: `post` is `pre` with one frame of tag `t` at
/// cursor `ptr` pushed onto the current thread, and nothing else changed.
pub open spec fn pushed_frame(pre: CallStack, post: CallStack, t: PushPopType, ptr: Pointer) -> bool {
    &&& post.thread_counter == pre.thread_counter
    &&& post.threads@.len() == pre.threads@.len()
    &&& forall|i: int| 0 <= i < pre.threads@.len() - 1
            ==> post.threads@[i] == pre.threads@[i]
    &&& post.threads@.last().thread_index == pre.threads@.last().thread_index
    &&& post.threads@.last().elements@ == pre.threads@.last().elements@.push(
            Element { pointer: ptr, push_pop_type: Some(t), in_expression_evaluation: false },
        )
}

/// The frame-pop relation: `post` is `pre` with the current thread's top
/// frame removed, and nothing else changed.
pub open spec fn popped_frame(pre: CallStack, post: CallStack) -> bool {
    &&& post.thread_counter == pre.thread_counter
    &&& post.threads@.len() == pre.threads@.len()
    &&& forall|i: int| 0 <= i < pre.threads@.len() - 1
            ==> post.threads@[i] == pre.threads@[i]
    &&& post.threads@.last().thread_index == pre.threads@.last().thread_index
    &&& post.threads@.last().elements@ == pre.threads@.last().elements@.drop_last()
}

impl CallStack {
    /// Structural well-formedness: at least one thread, no thread without
    /// its base frame, and every live identity below the counter.
    pub open spec fn wf(self) -> bool {
        &&& self.threads@.len() >= 1
        &&& forall|i: int| 0 <= i < self.threads@.len()
                ==> (#[trigger] self.threads@[i]).elements@.len() >= 1
        &&& forall|i: int| 0 <= i < self.threads@.len()
                ==> (#[trigger] self.threads@[i]).thread_index < self.thread_counter
    }

    /// Every frame of every thread points into the graph.
    pub open spec fn valid(self, g: StoryGraph) -> bool {
        forall|i: int| 0 <= i < self.threads@.len()
            ==> (#[trigger] self.threads@[i]).valid(g)
    }

    pub open spec fn current_thread_spec(self) -> Thread {
        self.threads@.last()
    }

    /// A fresh stack rooted at the start of `main_container`: one thread,
    /// one base frame.
    pub fn new(main_container: usize) -> (r: CallStack)
        ensures
            r.wf(),
            r.thread_counter == 1,
            r.threads@.len() == 1,
            r.threads@[0].thread_index == 0,
            r.threads@[0].elements@ == seq![
                Element {
                    pointer: Pointer { container: Some(main_container), index: 0 },
                    push_pop_type: None::<PushPopType>,
                    in_expression_evaluation: false,
                }
            ],
    {
        let first = Element {
            pointer: Pointer { container: Option::Some(main_container), index: 0 },
            push_pop_type: Option::None,
            in_expression_evaluation: false,
        };
        let mut threads: Vec<Thread> = Vec::new();
        threads.push(Thread::new(0, first));
        CallStack { threads, thread_counter: 1 }
    }

    /// Number of frames on the current thread.
    pub fn depth(&self) -> (r: usize)
        requires
            self.threads@.len() >= 1,
        ensures
            r == self.current_thread_spec().elements@.len(),
    {
        self.threads[self.threads.len() - 1].elements.len()
    }

    /// Push a frame with tag `t` at cursor `ptr` onto the current thread.
    pub fn push(&mut self, t: PushPopType, ptr: Pointer)
        requires
            old(self).wf(),
        ensures
            pushed_frame(*old(self), *final(self), t, ptr),
            final(self).wf(),
    {
        let n = self.threads.len();
        self.threads[n - 1].elements.push(Element {
            pointer: ptr,
            push_pop_type: Option::Some(t),
            in_expression_evaluation: false,
        });
    }

    /// Whether a pop with tag `t` would be balanced: there is a pushed
    /// frame above the base frame and, when a tag is supplied, the top
    /// frame was pushed with that same tag.
    pub open spec fn can_pop_spec(self, t: Option<PushPopType>) -> bool {
        &&& self.current_thread_spec().elements@.len() > 1
        &&& (t is None
                || self.current_thread_spec().elements@.last().push_pop_type == t)
    }

    pub fn can_pop(&self, t: Option<PushPopType>) -> (r: bool)
        requires
            self.threads@.len() >= 1,
            self.current_thread_spec().elements@.len() >= 1,
        ensures
            r == self.can_pop_spec(t),
    {
        let cur = &self.threads[self.threads.len() - 1];
        if cur.elements.len() <= 1 {
            return false;
        }
        let top = &cur.elements[cur.elements.len() - 1];
        match (&top.push_pop_type, &t) {
            (_, Option::None) => true,
            (Option::Some(a), Option::Some(b)) => *a == *b,
            (Option::None, Option::Some(_)) => false,
        }
    }

    /// Pop the current thread's top frame, which must have been pushed with
    /// tag `t` (a `None` tag pops whatever is on top). An unbalanced pop —
    /// wrong tag, or nothing above the base frame — fails and leaves the
    /// stack untouched.
    pub fn pop(&mut self, t: Option<PushPopType>) -> (r: Result<(), StackError>)
        requires
            old(self).wf(),
        ensures
            old(self).can_pop_spec(t)
                ==> (r is Ok && popped_frame(*old(self), *final(self))),
            !old(self).can_pop_spec(t)
                ==> (r matches Err(e) && e == StackError::UnbalancedPop
                    && *final(self) == *old(self)),
            final(self).wf(),
    {
        if !self.can_pop(t) {
            return Err(StackError::UnbalancedPop);
        }
        let n = self.threads.len();
        let popped = self.threads[n - 1].elements.pop();
        Ok(())
    }

    /// First live thread carrying identity `idx`, scanning in order from
    /// position `from`.
    pub open spec fn thread_pos_from(self, idx: u32, from: int) -> Option<int>
        decreases self.threads@.len() - from,
    {
        if from < 0 || from >= self.threads@.len() {
            None
        } else if self.threads@[from].thread_index == idx {
            Some(from)
        } else {
            self.thread_pos_from(idx, from + 1)
        }
    }

    pub open spec fn thread_pos(self, idx: u32) -> Option<int> {
        self.thread_pos_from(idx, 0)
    }

    /// Whether a thread with identity `idx` is still live on this stack.
    pub open spec fn has_live_thread(self, idx: u32) -> bool {
        self.thread_pos(idx) is Some
    }

    /// Read-only lookup of the live thread with identity `idx`; nothing
    /// once the story has moved past that branch.
    pub fn get_thread_with_index(&self, idx: u32) -> (r: Option<&Thread>)
        ensures
            match self.thread_pos(idx) {
                Some(p) => r matches Some(t) && *t == self.threads@[p],
                None => r is None,
            },
    {
        self.get_thread_from(idx, 0)
    }

    fn get_thread_from(&self, idx: u32, from: usize) -> (r: Option<&Thread>)
        requires
            from <= self.threads@.len(),
        ensures
            match self.thread_pos_from(idx, from as int) {
                Some(p) => r matches Some(t) && *t == self.threads@[p],
                None => r is None,
            },
        decreases self.threads@.len() - from,
    {
        if from == self.threads.len() {
            return Option::None;
        }
        if self.threads[from].thread_index == idx {
            Option::Some(&self.threads[from])
        } else {
            self.get_thread_from(idx, from + 1)
        }
    }

    /// Fork the current thread: append an independent copy under a fresh
    /// identity.
    pub fn push_thread(&mut self)
        requires
            old(self).wf(),
            old(self).thread_counter < u32::MAX,
        ensures
            final(self).wf(),
            final(self).thread_counter == old(self).thread_counter + 1,
            final(self).threads@.len() == old(self).threads@.len() + 1,
            forall|i: int| 0 <= i < old(self).threads@.len()
                ==> final(self).threads@[i] == old(self).threads@[i],
            final(self).threads@.last().thread_index == old(self).thread_counter,
            final(self).threads@.last().elements@
                == old(self).current_thread_spec().elements@,
    {
        let mut forked = self.threads[self.threads.len() - 1].copy();
        forked.thread_index = self.thread_counter;
        self.thread_counter = self.thread_counter + 1;
        self.threads.push(forked);
    }

    /// Drop the current thread, resuming the one below; the last thread
    /// cannot be popped.
    pub fn pop_thread(&mut self) -> (r: Result<(), StackError>)
        requires
            old(self).wf(),
        ensures
            old(self).threads@.len() > 1
                ==> (r is Ok
                    && final(self).thread_counter == old(self).thread_counter
                    && final(self).threads@ == old(self).threads@.drop_last()),
            old(self).threads@.len() <= 1
                ==> (r matches Err(e) && e == StackError::CannotPopThread
                    && *final(self) == *old(self)),
            final(self).wf(),
    {
        if self.threads.len() > 1 {
            let dropped = self.threads.pop();
            Ok(())
        } else {
            Err(StackError::CannotPopThread)
        }
    }

    /// Deep copy of the whole stack, sharing nothing with the original.
    pub fn copy(&self) -> (r: CallStack)
        ensures
            stack_eq(&r, self),
    {
        let mut threads: Vec<Thread> = Vec::new();
        let mut i: usize = 0;
        while i < self.threads.len()
            invariant
                i <= self.threads@.len(),
                threads@.len() == i,
                forall|j: int| 0 <= j < i ==> thread_eq(&threads@[j], &self.threads@[j]),
            decreases self.threads@.len() - i,
        {
            threads.push(self.threads[i].copy());
            i = i + 1;
        }
        CallStack { threads, thread_counter: self.thread_counter }
    }
}

/// What a thread-position lookup means: it finds the first live thread
/// with the given identity, and finds nothing exactly when none is live.
pub proof fn lemma_thread_pos_props(cs: CallStack, idx: u32, from: int)
    requires
        0 <= from <= cs.threads@.len(),
    ensures
        match cs.thread_pos_from(idx, from) {
            Some(p) => from <= p < cs.threads@.len()
                && cs.threads@[p].thread_index == idx
                && forall|i: int| from <= i < p ==> cs.threads@[i].thread_index != idx,
            None => forall|i: int| from <= i < cs.threads@.len()
                ==> cs.threads@[i].thread_index != idx,
        },
    decreases cs.threads@.len() - from,
{
    if from < cs.threads@.len() {
        if cs.threads@[from].thread_index != idx {
            lemma_thread_pos_props(cs, idx, from + 1);
        }
    }
}

/// Thread lookup reads identities only: two stacks whose threads carry
/// the same identities in the same order resolve every lookup alike.
pub proof fn lemma_thread_pos_same_indices(a: CallStack, b: CallStack, idx: u32, from: int)
    requires
        0 <= from <= a.threads@.len(),
        a.threads@.len() == b.threads@.len(),
        forall|k: int| 0 <= k < a.threads@.len()
            ==> (#[trigger] a.threads@[k]).thread_index == b.threads@[k].thread_index,
    ensures
        a.thread_pos_from(idx, from) == b.thread_pos_from(idx, from),
    decreases a.threads@.len() - from,
{
    if from < a.threads@.len() {
        if a.threads@[from].thread_index != idx {
            lemma_thread_pos_same_indices(a, b, idx, from + 1);
        }
    }
}

/// Call-stack balance: after pushing a frame with one tag, a pop naming a
/// different tag is refused, a pop naming the same tag is allowed, and
/// performing that pop returns the current thread to its prior frame
/// sequence.
pub proof fn lemma_push_pop_balance(
    pre: CallStack,
    mid: CallStack,
    post: CallStack,
    t1: PushPopType,
    t2: PushPopType,
    ptr: Pointer,
)
    requires
        pre.wf(),
        pushed_frame(pre, mid, t1, ptr),
    ensures
        t1 != t2 ==> !mid.can_pop_spec(Some(t2)),
        mid.can_pop_spec(Some(t1)),
        popped_frame(mid, post)
            ==> post.threads@.last().elements@ == pre.threads@.last().elements@,
{
    let e = Element { pointer: ptr, push_pop_type: Some(t1), in_expression_evaluation: false };
    assert(mid.threads@.last().elements@.last() == e);
    if popped_frame(mid, post) {
        assert(post.threads@.last().elements@
            =~= pre.threads@.last().elements@);
    }
}

} // verus!
