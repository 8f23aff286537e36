use vstd::prelude::*;
use crate::callstack::{CallStack, Element, PushPopType, Thread, thread_eq, lemma_thread_pos_props, lemma_thread_pos_same_indices};
use crate::choice::{Choice, choice_core_eq};
use crate::graph::StoryGraph;
use crate::path::path_eq;
use crate::pointer::Pointer;
use crate::value::{Value, value_type_eq};

verus! {

/// One entry of a flow's output stream: a produced value, a tag, or a
/// glue marker.
pub enum OutputObject {
    Val(Value),
    Tag(String),
    Glue,
}

pub open spec fn output_eq(a: &OutputObject, b: &OutputObject) -> bool {
    match (a, b) {
        (OutputObject::Val(x), OutputObject::Val(y)) => value_type_eq(&x.value, &y.value),
        (OutputObject::Tag(x), OutputObject::Tag(y)) => x@ == y@,
        (OutputObject::Glue, OutputObject::Glue) => true,
        _ => false,
    }
}

pub open spec fn outputs_eq(a: Seq<OutputObject>, b: Seq<OutputObject>) -> bool {
    a.len() == b.len() && forall|i: int| 0 <= i < a.len() ==> output_eq(&a[i], &b[i])
}

pub fn duplicate_output(o: &OutputObject) -> (r: OutputObject)
    ensures
        output_eq(&r, o),
{
    match o {
        OutputObject::Val(v) => OutputObject::Val(v.duplicate()),
        OutputObject::Tag(s) => OutputObject::Tag(s.clone()),
        OutputObject::Glue => OutputObject::Glue,
    }
}

pub fn duplicate_outputs(v: &Vec<OutputObject>) -> (r: Vec<OutputObject>)
    ensures
        outputs_eq(r@, v@),
{
    let mut out: Vec<OutputObject> = Vec::new();
    let mut i: usize = 0;
    while i < v.len()
        invariant
            i <= v@.len(),
            out@.len() == i,
            forall|j: int| 0 <= j < i ==> output_eq(&out@[j], &v@[j]),
        decreases v@.len() - i,
    {
        out.push(duplicate_output(&v[i]));
        i = i + 1;
    }
    out
}

fn copy_threads(v: &Vec<Thread>) -> (r: Vec<Thread>)
    ensures
        r@.len() == v@.len(),
        forall|i: int| 0 <= i < v@.len() ==> thread_eq(&r@[i], &v@[i]),
{
    let mut out: Vec<Thread> = Vec::new();
    let mut i: usize = 0;
    while i < v.len()
        invariant
            i <= v@.len(),
            out@.len() == i,
            forall|j: int| 0 <= j < i ==> thread_eq(&out@[j], &v@[j]),
        decreases v@.len() - i,
    {
        out.push(v[i].copy());
        i = i + 1;
    }
    out
}

/// The persisted form of one choice.
pub struct ChoiceSnapshot {
    pub text: String,
    pub target_path: crate::path::Path,
    pub original_thread_index: u32,
}

/// One persisted "choice thread": a thread snapshot keyed by the identity
/// it carried, for choices whose originating thread is no longer live.
pub struct ChoiceThreadEntry {
    pub thread_index: u32,
    pub thread: Thread,
}

/// The persisted form of a call stack.
pub struct CallStackSnapshot {
    pub threads: Vec<Thread>,
    pub thread_counter: u32,
}

/// The persisted, JSON-shaped form of a whole flow. In the emitted
/// format the choice-thread map is keyed by the thread identity written
/// as text and comes before the choices themselves; it is omitted
/// entirely when no current choice needs it.
pub struct FlowSnapshot {
    pub callstack: CallStackSnapshot,
    pub output_stream: Vec<OutputObject>,
    pub choice_threads: Option<Vec<ChoiceThreadEntry>>,
    pub current_choices: Vec<ChoiceSnapshot>,
}

/// Why loading a persisted flow was refused. A refused load produces no
/// flow at all, never a partially initialized one.
#[derive(Clone, Copy, PartialEq, Eq, Structural, Debug)]
pub enum LoadError {
    /// The persisted call stack has no thread, a thread without its base
    /// frame, or a thread identity at or above the identity counter.
    MalformedCallStack,
    /// A persisted frame points at a node that is not a container of the
    /// graph being loaded against.
    InvalidPointer,
    /// A choice's originating thread is neither live in the persisted
    /// call stack nor recoverable from a usable choice-thread entry.
    ChoiceThreadUnavailable,
}

pub open spec fn entries_opt(o: Option<Vec<ChoiceThreadEntry>>) -> Seq<ChoiceThreadEntry> {
    match o {
        Some(v) => v@,
        None => Seq::empty(),
    }
}

pub open spec fn entries_of(s: FlowSnapshot) -> Seq<ChoiceThreadEntry> {
    entries_opt(s.choice_threads)
}

/// First entry keyed by `idx`, scanning from position `from`.
pub open spec fn entry_pos_from(entries: Seq<ChoiceThreadEntry>, idx: u32, from: int) -> Option<int>
    decreases entries.len() - from,
{
    if from < 0 || from >= entries.len() {
        None
    } else if entries[from].thread_index == idx {
        Some(from)
    } else {
        entry_pos_from(entries, idx, from + 1)
    }
}

pub open spec fn entry_pos(entries: Seq<ChoiceThreadEntry>, idx: u32) -> Option<int> {
    entry_pos_from(entries, idx, 0)
}

/// What an entry lookup means: the first entry keyed by `idx`, and
/// nothing exactly when no entry carries that key.
pub proof fn lemma_entry_pos_props(entries: Seq<ChoiceThreadEntry>, idx: u32, from: int)
    requires
        0 <= from <= entries.len(),
    ensures
        match entry_pos_from(entries, idx, from) {
            Some(p) => from <= p < entries.len()
                && entries[p].thread_index == idx
                && forall|k: int| from <= k < p ==> entries[k].thread_index != idx,
            None => forall|k: int| from <= k < entries.len()
                ==> entries[k].thread_index != idx,
        },
    decreases entries.len() - from,
{
    if from < entries.len() {
        if entries[from].thread_index != idx {
            lemma_entry_pos_props(entries, idx, from + 1);
        }
    }
}

/// Appending an entry leaves earlier lookups untouched and serves keys
/// that were absent.
pub proof fn lemma_entry_pos_push(entries: Seq<ChoiceThreadEntry>, e: ChoiceThreadEntry, idx: u32, from: int)
    requires
        0 <= from <= entries.len(),
    ensures
        match entry_pos_from(entries, idx, from) {
            Some(p) => entry_pos_from(entries.push(e), idx, from) == Some(p),
            None => entry_pos_from(entries.push(e), idx, from)
                == if e.thread_index == idx { Some(entries.len() as int) } else { None::<int> },
        },
    decreases entries.len() - from,
{
    assert(entries.push(e).len() == entries.len() + 1);
    assert(entries.push(e)[entries.len() as int] == e);
    if from < entries.len() {
        assert(entries.push(e)[from] == entries[from]);
        if entries[from].thread_index != idx {
            lemma_entry_pos_push(entries, e, idx, from + 1);
        }
    }
}

/// Lookups only read keys: two entry sequences with the same keys in the
/// same places resolve every lookup alike.
pub proof fn lemma_entry_pos_same_keys(a: Seq<ChoiceThreadEntry>, b: Seq<ChoiceThreadEntry>, idx: u32, from: int)
    requires
        0 <= from <= a.len(),
        a.len() == b.len(),
        forall|k: int| 0 <= k < a.len() ==> a[k].thread_index == b[k].thread_index,
    ensures
        entry_pos_from(a, idx, from) == entry_pos_from(b, idx, from),
    decreases a.len() - from,
{
    if from < a.len() {
        if a[from].thread_index != idx {
            lemma_entry_pos_same_keys(a, b, idx, from + 1);
        }
    }
}

fn find_entry(entries: &Vec<ChoiceThreadEntry>, idx: u32, from: usize) -> (r: Option<usize>)
    requires
        from <= entries@.len(),
    ensures
        match entry_pos_from(entries@, idx, from as int) {
            Some(p) => r matches Some(u) && u == p,
            None => r is None,
        },
    decreases entries@.len() - from,
{
    if from == entries.len() {
        return Option::None;
    }
    if entries[from].thread_index == idx {
        Option::Some(from)
    } else {
        find_entry(entries, idx, from + 1)
    }
}

/// An independent narrative context: one call stack, an append-only
/// output stream, and the current choices, all exclusively owned.
pub struct Flow {
    pub name: String,
    pub callstack: CallStack,
    pub output_stream: Vec<OutputObject>,
    pub current_choices: Vec<Choice>,
}

impl Flow {
    /// Structural soundness: a well-formed call stack, and every current
    /// choice carrying its generation-time thread snapshot under the
    /// choice's own originating identity.
    pub open spec fn wf(self) -> bool {
        &&& self.callstack.wf()
        &&& forall|i: int| 0 <= i < self.current_choices@.len()
                ==> ((#[trigger] self.current_choices@[i]).thread_at_generation matches Some(t)
                    && t.thread_index == self.current_choices@[i].original_thread_index
                    && t.elements@.len() >= 1)
    }

    /// Every stored cursor points into the graph.
    pub open spec fn valid(self, g: StoryGraph) -> bool {
        &&& self.callstack.valid(g)
        &&& forall|i: int| 0 <= i < self.current_choices@.len()
                ==> match (#[trigger] self.current_choices@[i]).thread_at_generation {
                    Some(t) => t.valid(g),
                    None => true,
                }
    }

    /// A fresh flow rooted at the start of `main_container`: empty output,
    /// no choices, a single base frame.
    pub fn new(name: &str, main_container: usize) -> (r: Flow)
        ensures
            r.name@ == name@,
            r.callstack.thread_counter == 1,
            r.callstack.threads@.len() == 1,
            r.callstack.threads@[0].thread_index == 0,
            r.callstack.threads@[0].elements@ == seq![
                Element {
                    pointer: Pointer { container: Some(main_container), index: 0 },
                    push_pop_type: None::<PushPopType>,
                    in_expression_evaluation: false,
                }
            ],
            r.output_stream@.len() == 0,
            r.current_choices@.len() == 0,
            r.wf(),
    {
        Flow {
            name: name.to_owned(),
            callstack: CallStack::new(main_container),
            output_stream: Vec::new(),
            current_choices: Vec::new(),
        }
    }

    /// Append one produced object; earlier output is never reordered or
    /// rewritten.
    pub fn add_output(&mut self, o: OutputObject)
        ensures
            final(self).output_stream@ == old(self).output_stream@.push(o),
            final(self).name == old(self).name,
            final(self).callstack == old(self).callstack,
            final(self).current_choices == old(self).current_choices,
    {
        self.output_stream.push(o);
    }

    /// Replace the current choices wholesale, as a completed generation
    /// step does; the set is never partially updated.
    pub fn set_choices(&mut self, choices: Vec<Choice>)
        requires
            forall|i: int| 0 <= i < choices@.len()
                ==> ((#[trigger] choices@[i]).thread_at_generation matches Some(t)
                    && t.thread_index == choices@[i].original_thread_index
                    && t.elements@.len() >= 1),
        ensures
            final(self).current_choices == choices,
            final(self).name == old(self).name,
            final(self).callstack == old(self).callstack,
            final(self).output_stream == old(self).output_stream,
            old(self).wf() ==> final(self).wf(),
    {
        self.current_choices = choices;
    }
}

/// The persisted call stack mirrors the live one thread for thread.
pub open spec fn stack_saved(cs: CallStack, s: CallStackSnapshot) -> bool {
    &&& s.thread_counter == cs.thread_counter
    &&& s.threads@.len() == cs.threads@.len()
    &&& forall|i: int| 0 <= i < cs.threads@.len()
            ==> thread_eq(&s.threads@[i], &cs.threads@[i])
}

/// The persisted choice keeps text, target and originating identity.
pub open spec fn choice_saved(c: Choice, s: ChoiceSnapshot) -> bool {
    &&& s.text@ == c.text@
    &&& path_eq(&s.target_path, &c.target_path)
    &&& s.original_thread_index == c.original_thread_index
}

/// Position of the first current choice carrying identity `idx`,
/// scanning from position `from`.
pub open spec fn choice_pos_from(f: Flow, idx: u32, from: int) -> Option<int>
    decreases f.current_choices@.len() - from,
{
    if from < 0 || from >= f.current_choices@.len() {
        None
    } else if f.current_choices@[from].original_thread_index == idx {
        Some(from)
    } else {
        choice_pos_from(f, idx, from + 1)
    }
}

pub open spec fn choice_first_pos(f: Flow, idx: u32) -> Option<int> {
    choice_pos_from(f, idx, 0)
}

/// What the first-choice lookup means: the least position carrying the
/// identity, and nothing exactly when no choice carries it.
pub proof fn lemma_choice_pos_props(f: Flow, idx: u32, from: int)
    requires
        0 <= from <= f.current_choices@.len(),
    ensures
        match choice_pos_from(f, idx, from) {
            Some(p) => from <= p < f.current_choices@.len()
                && f.current_choices@[p].original_thread_index == idx
                && forall|j: int| from <= j < p
                    ==> f.current_choices@[j].original_thread_index != idx,
            None => forall|j: int| from <= j < f.current_choices@.len()
                ==> f.current_choices@[j].original_thread_index != idx,
        },
    decreases f.current_choices@.len() - from,
{
    if from < f.current_choices@.len() {
        if f.current_choices@[from].original_thread_index != idx {
            lemma_choice_pos_props(f, idx, from + 1);
        }
    }
}

/// The identity keying entry `a` is first demanded by an earlier choice
/// than the one keying entry `b`.
pub open spec fn keys_in_first_appearance_order(f: Flow, a: ChoiceThreadEntry, b: ChoiceThreadEntry) -> bool {
    match (choice_first_pos(f, a.thread_index), choice_first_pos(f, b.thread_index)) {
        (Some(x), Some(y)) => x < y,
        _ => false,
    }
}

/// The entry holds the generation-time thread of the last current choice
/// (in order, among the first `upto`) that carries the entry's key — the
/// keyed-map form admits one snapshot per identity, and a later choice
/// overwrites an earlier one sharing its identity.
pub open spec fn entry_matches_last_choice_upto(f: Flow, e: ChoiceThreadEntry, upto: int) -> bool {
    exists|j: int|
        0 <= j < upto
        && (#[trigger] f.current_choices@[j]).original_thread_index == e.thread_index
        && (forall|j2: int| j < j2 < upto
                ==> f.current_choices@[j2].original_thread_index != e.thread_index)
        && match f.current_choices@[j].thread_at_generation {
            Some(t) => thread_eq(&e.thread, &t),
            None => false,
        }
}

/// What the choice-thread entries contain after the first `upto` choices
/// have been considered: one entry, uniquely keyed, for exactly each
/// originating identity that is no longer live, holding the snapshot of
/// the last such choice, in the order the identities first appear among
/// the choices.
pub open spec fn partial_entries_ok(f: Flow, entries: Seq<ChoiceThreadEntry>, upto: int) -> bool {
    &&& forall|k: int| 0 <= k < entries.len()
            ==> exists|j: int|
                0 <= j < upto
                && f.current_choices@[j].original_thread_index
                    == (#[trigger] entries[k]).thread_index
                && !f.callstack.has_live_thread(entries[k].thread_index)
    &&& forall|j: int|
            0 <= j < upto
            && !f.callstack.has_live_thread(
                (#[trigger] f.current_choices@[j]).original_thread_index,
            ) ==> entry_pos(entries, f.current_choices@[j].original_thread_index) is Some
    &&& forall|k1: int, k2: int| 0 <= k1 < k2 < entries.len()
            ==> entries[k1].thread_index != entries[k2].thread_index
    &&& forall|k: int| 0 <= k < entries.len()
            ==> entry_matches_last_choice_upto(f, #[trigger] entries[k], upto)
    &&& forall|k1: int, k2: int| 0 <= k1 < k2 < entries.len()
            ==> keys_in_first_appearance_order(f, entries[k1], entries[k2])
}

pub open spec fn entries_ok(f: Flow, entries: Seq<ChoiceThreadEntry>) -> bool {
    partial_entries_ok(f, entries, f.current_choices@.len() as int)
}

/// The full save relation between a flow and its snapshot.
pub open spec fn saves_to(f: Flow, s: FlowSnapshot) -> bool {
    &&& stack_saved(f.callstack, s.callstack)
    &&& outputs_eq(s.output_stream@, f.output_stream@)
    &&& s.current_choices@.len() == f.current_choices@.len()
    &&& forall|i: int| 0 <= i < f.current_choices@.len()
            ==> choice_saved(f.current_choices@[i], #[trigger] s.current_choices@[i])
    &&& match s.choice_threads {
            Some(v) => v@.len() > 0 && entries_ok(f, v@),
            None => forall|i: int| 0 <= i < f.current_choices@.len()
                ==> f.callstack.has_live_thread(
                    (#[trigger] f.current_choices@[i]).original_thread_index,
                ),
        }
}

impl Flow {
    /// Produce the persisted snapshot of this flow: the call stack, the
    /// output stream, a choice-thread entry for every current choice whose
    /// originating thread is no longer live (none at all when no choice
    /// needs one), and the choices themselves.
    pub fn write_json(&self) -> (r: FlowSnapshot)
        requires
            self.wf(),
        ensures
            saves_to(*self, r),
    {
        let callstack = CallStackSnapshot {
            threads: copy_threads(&self.callstack.threads),
            thread_counter: self.callstack.thread_counter,
        };
        let output_stream = duplicate_outputs(&self.output_stream);

        let mut entries: Vec<ChoiceThreadEntry> = Vec::new();
        let mut i: usize = 0;
        while i < self.current_choices.len()
            invariant
                self.wf(),
                i <= self.current_choices@.len(),
                partial_entries_ok(*self, entries@, i as int),
            decreases self.current_choices@.len() - i,
        {
            let idx = self.current_choices[i].original_thread_index;
            let live = self.callstack.get_thread_with_index(idx);
            let is_live = match live {
                Option::Some(_) => true,
                Option::None => false,
            };
            if !is_live {
                let snap = match &self.current_choices[i].thread_at_generation {
                    Option::Some(t) => t.copy(),
                    Option::None => vstd::pervasive::unreached(),
                };
                let found = find_entry(&entries, idx, 0);
                let ghost pre_entries = entries@;
                match found {
                    Option::Some(p) => {
                        proof {
                            lemma_entry_pos_props(pre_entries, idx, 0);
                        }
                        entries[p] = ChoiceThreadEntry { thread_index: idx, thread: snap };
                        proof {
                            lemma_write_step_overwrite(*self, pre_entries, entries@, i as int, p as int);
                        }
                    },
                    Option::None => {
                        proof {
                            lemma_entry_pos_props(pre_entries, idx, 0);
                        }
                        entries.push(ChoiceThreadEntry { thread_index: idx, thread: snap });
                        proof {
                            lemma_write_step_push(*self, pre_entries, entries@, i as int);
                        }
                    },
                }
            } else {
                proof {
                    lemma_write_step_live(*self, entries@, i as int);
                }
            }
            i = i + 1;
        }

        let choice_threads = if entries.len() == 0 {
            Option::None
        } else {
            Option::Some(entries)
        };

        let mut current_choices: Vec<ChoiceSnapshot> = Vec::new();
        let mut c: usize = 0;
        while c < self.current_choices.len()
            invariant
                self.wf(),
                c <= self.current_choices@.len(),
                current_choices@.len() == c,
                forall|j: int| 0 <= j < c
                    ==> choice_saved(self.current_choices@[j], #[trigger] current_choices@[j]),
            decreases self.current_choices@.len() - c,
        {
            let ch = &self.current_choices[c];
            current_choices.push(ChoiceSnapshot {
                text: ch.text.clone(),
                target_path: ch.target_path.duplicate(),
                original_thread_index: ch.original_thread_index,
            });
            c = c + 1;
        }

        proof {
            if entries@.len() == 0 {
                assert forall|j: int|
                    0 <= j < self.current_choices@.len()
                    implies self.callstack.has_live_thread(
                        (#[trigger] self.current_choices@[j]).original_thread_index,
                    ) by {
                    if !self.callstack.has_live_thread(
                        self.current_choices@[j].original_thread_index,
                    ) {
                        assert(entry_pos(entries@, self.current_choices@[j].original_thread_index)
                            is Some);
                        lemma_entry_pos_props(
                            entries@,
                            self.current_choices@[j].original_thread_index,
                            0,
                        );
                    }
                }
            }
        }
        FlowSnapshot { callstack, output_stream, choice_threads, current_choices }
    }
}

/// The persisted call stack is structurally sound: at least one thread,
/// every thread with its base frame, every identity below the counter.
pub open spec fn stack_structure_ok(s: CallStackSnapshot) -> bool {
    &&& s.threads@.len() >= 1
    &&& forall|i: int| 0 <= i < s.threads@.len()
            ==> (#[trigger] s.threads@[i]).elements@.len() >= 1
    &&& forall|i: int| 0 <= i < s.threads@.len()
            ==> (#[trigger] s.threads@[i]).thread_index < s.thread_counter
}

/// Every persisted frame points into the graph being loaded against.
pub open spec fn stack_pointers_ok(g: StoryGraph, s: CallStackSnapshot) -> bool {
    forall|i: int| 0 <= i < s.threads@.len() ==> (#[trigger] s.threads@[i]).valid(g)
}

pub open spec fn snapshot_has_thread(s: CallStackSnapshot, idx: u32) -> bool {
    exists|i: int| 0 <= i < s.threads@.len() && (#[trigger] s.threads@[i]).thread_index == idx
}

/// A choice-thread entry keyed by `idx` exists and can actually stand in
/// for the thread: it carries that identity, has its base frame, and
/// points into the graph.
pub open spec fn entry_usable(g: StoryGraph, entries: Seq<ChoiceThreadEntry>, idx: u32) -> bool {
    match entry_pos(entries, idx) {
        Some(k) => entries[k].thread.thread_index == idx
            && entries[k].thread.elements@.len() >= 1
            && entries[k].thread.valid(g),
        None => false,
    }
}

/// A choice's originating thread can be recovered against a live stack:
/// either it is still live there, or a usable entry stands in for it.
pub open spec fn resolvable_against(g: StoryGraph, cs: CallStack, entries: Seq<ChoiceThreadEntry>, idx: u32) -> bool {
    cs.has_live_thread(idx) || entry_usable(g, entries, idx)
}

pub open spec fn choice_resolvable(g: StoryGraph, s: FlowSnapshot, idx: u32) -> bool {
    snapshot_has_thread(s.callstack, idx) || entry_usable(g, entries_of(s), idx)
}

pub open spec fn choices_resolvable(g: StoryGraph, s: FlowSnapshot) -> bool {
    forall|i: int| 0 <= i < s.current_choices@.len()
        ==> choice_resolvable(g, s, (#[trigger] s.current_choices@[i]).original_thread_index)
}

/// A persisted flow loads exactly when its call stack is structurally
/// sound, its frames point into the graph, and every choice's
/// originating thread is recoverable.
pub open spec fn load_ok(g: StoryGraph, s: FlowSnapshot) -> bool {
    &&& stack_structure_ok(s.callstack)
    &&& stack_pointers_ok(g, s.callstack)
    &&& choices_resolvable(g, s)
}

/// Choice `i` observes its originating thread: the live one when the
/// identity is still on the stack, otherwise the persisted stand-in.
pub open spec fn choice_thread_attached(f: Flow, entries: Seq<ChoiceThreadEntry>, i: int) -> bool {
    match f.callstack.thread_pos(f.current_choices@[i].original_thread_index) {
        Some(p) => match f.current_choices@[i].thread_at_generation {
            Some(t) => thread_eq(&t, &f.callstack.threads@[p]),
            None => false,
        },
        None => match entry_pos(entries, f.current_choices@[i].original_thread_index) {
            Some(k) => match f.current_choices@[i].thread_at_generation {
                Some(t) => thread_eq(&t, &entries[k].thread),
                None => false,
            },
            None => false,
        },
    }
}

pub open spec fn choice_threads_attached(f: Flow, entries: Seq<ChoiceThreadEntry>) -> bool {
    forall|i: int| 0 <= i < f.current_choices@.len()
        ==> choice_thread_attached(f, entries, i)
}

/// The full load relation between a snapshot and the flow built from it.
pub open spec fn loads_to(g: StoryGraph, name: Seq<char>, s: FlowSnapshot, f: Flow) -> bool {
    &&& f.name@ == name
    &&& stack_saved(f.callstack, s.callstack)
    &&& outputs_eq(f.output_stream@, s.output_stream@)
    &&& f.current_choices@.len() == s.current_choices@.len()
    &&& forall|i: int| 0 <= i < f.current_choices@.len()
            ==> choice_saved(#[trigger] f.current_choices@[i], s.current_choices@[i])
    &&& choice_threads_attached(f, entries_of(s))
}

impl Flow {
    /// Resolve every current choice's originating thread, live-first: a
    /// thread still live on the call stack is attached as an independent
    /// copy; a dead one must be recovered from its choice-thread entry.
    /// If any choice can be served by neither source, nothing is changed
    /// and the load fails.
    pub fn load_flow_choice_threads(&mut self, choice_threads: &Option<Vec<ChoiceThreadEntry>>, graph: &StoryGraph) -> (r: Result<(), LoadError>)
        requires
            old(self).callstack.wf(),
            old(self).callstack.valid(*graph),
        ensures
            (r is Ok) <==> (forall|i: int| 0 <= i < old(self).current_choices@.len()
                ==> resolvable_against(
                    *graph,
                    old(self).callstack,
                    entries_opt(*choice_threads),
                    (#[trigger] old(self).current_choices@[i]).original_thread_index,
                )),
            r is Ok ==> {
                &&& final(self).name == old(self).name
                &&& final(self).callstack == old(self).callstack
                &&& final(self).output_stream == old(self).output_stream
                &&& final(self).current_choices@.len() == old(self).current_choices@.len()
                &&& forall|i: int| 0 <= i < old(self).current_choices@.len()
                        ==> (#[trigger] final(self).current_choices@[i]).text
                                == old(self).current_choices@[i].text
                            && final(self).current_choices@[i].target_path
                                == old(self).current_choices@[i].target_path
                            && final(self).current_choices@[i].original_thread_index
                                == old(self).current_choices@[i].original_thread_index
                &&& choice_threads_attached(*final(self), entries_opt(*choice_threads))
                &&& final(self).wf()
                &&& final(self).valid(*graph)
            },
            r matches Err(e) ==> e == LoadError::ChoiceThreadUnavailable
                && *final(self) == *old(self),
    {
        let ghost entries = entries_opt(*choice_threads);
        // First pass: check that every choice is resolvable, touching nothing.
        let mut i: usize = 0;
        while i < self.current_choices.len()
            invariant
                *self == *old(self),
                entries == entries_opt(*choice_threads),
                i <= self.current_choices@.len(),
                forall|x: int| 0 <= x < i
                    ==> resolvable_against(
                        *graph,
                        self.callstack,
                        entries,
                        (#[trigger] self.current_choices@[x]).original_thread_index,
                    ),
            decreases self.current_choices@.len() - i,
        {
            let idx = self.current_choices[i].original_thread_index;
            let live = self.callstack.get_thread_with_index(idx);
            let is_live = match live {
                Option::Some(_) => true,
                Option::None => false,
            };
            if !is_live {
                let usable = match choice_threads {
                    Option::Some(v) => {
                        proof {
                            lemma_entry_pos_props(v@, idx, 0);
                        }
                        match find_entry(v, idx, 0) {
                            Option::Some(p) => {
                                v[p].thread.thread_index == idx
                                    && v[p].thread.elements.len() >= 1
                                    && v[p].thread.check_valid(graph)
                            },
                            Option::None => false,
                        }
                    },
                    Option::None => false,
                };
                if !usable {
                    proof {
                        assert(!resolvable_against(*graph, self.callstack, entries, idx));
                    }
                    return Err(LoadError::ChoiceThreadUnavailable);
                }
            }
            i = i + 1;
        }
        // Second pass: attach, live-first.
        let mut i2: usize = 0;
        while i2 < self.current_choices.len()
            invariant
                i2 <= self.current_choices@.len(),
                entries == entries_opt(*choice_threads),
                old(self).callstack.wf(),
                old(self).callstack.valid(*graph),
                self.name == old(self).name,
                self.callstack == old(self).callstack,
                self.output_stream == old(self).output_stream,
                self.current_choices@.len() == old(self).current_choices@.len(),
                forall|x: int| i2 <= x < self.current_choices@.len()
                    ==> #[trigger] self.current_choices@[x] == old(self).current_choices@[x],
                forall|x: int| 0 <= x < self.current_choices@.len()
                    ==> (#[trigger] self.current_choices@[x]).text
                            == old(self).current_choices@[x].text
                        && self.current_choices@[x].target_path
                            == old(self).current_choices@[x].target_path
                        && self.current_choices@[x].original_thread_index
                            == old(self).current_choices@[x].original_thread_index,
                forall|x: int| 0 <= x < self.current_choices@.len()
                    ==> resolvable_against(
                        *graph,
                        self.callstack,
                        entries,
                        (#[trigger] self.current_choices@[x]).original_thread_index,
                    ),
                forall|x: int| 0 <= x < i2 ==> choice_thread_attached(*self, entries, x),
                forall|x: int| 0 <= x < i2
                    ==> ((#[trigger] self.current_choices@[x]).thread_at_generation
                            matches Some(t)
                        && t.thread_index == self.current_choices@[x].original_thread_index
                        && t.elements@.len() >= 1
                        && t.valid(*graph)),
            decreases self.current_choices@.len() - i2,
        {
            let idx = self.current_choices[i2].original_thread_index;
            let ghost pre = *self;
            let attach: Thread = {
                let live = self.callstack.get_thread_with_index(idx);
                match live {
                    Option::Some(t) => {
                        proof {
                            lemma_thread_pos_props(self.callstack, idx, 0);
                        }
                        t.copy()
                    },
                    Option::None => {
                        proof {
                            assert(resolvable_against(*graph, self.callstack, entries, idx));
                            assert(!self.callstack.has_live_thread(idx));
                        }
                        match choice_threads {
                            Option::Some(v) => {
                                proof {
                                    lemma_entry_pos_props(v@, idx, 0);
                                }
                                match find_entry(v, idx, 0) {
                                    Option::Some(p) => v[p].thread.copy(),
                                    Option::None => vstd::pervasive::unreached(),
                                }
                            },
                            Option::None => vstd::pervasive::unreached(),
                        }
                    },
                }
            };
            self.current_choices[i2].thread_at_generation = Option::Some(attach);
            proof {
                assert forall|x: int| 0 <= x < i2 + 1
                    implies choice_thread_attached(*self, entries, x) by {
                    if x < i2 {
                        assert(self.current_choices@[x] == pre.current_choices@[x]);
                        assert(choice_thread_attached(pre, entries, x));
                    }
                }
            }
            i2 = i2 + 1;
        }
        Ok(())
    }
}

impl Flow {
    /// Rebuild a flow from its persisted snapshot, in order: output stream
    /// and raw choices, then the call stack (validated against the graph),
    /// then each choice's originating thread — live-first, falling back to
    /// the persisted choice-thread entries. Any failure yields an error
    /// and no flow at all.
    pub fn from_json(name: &str, graph: &StoryGraph, j: &FlowSnapshot) -> (r: Result<Flow, LoadError>)
        ensures
            (r is Ok) <==> load_ok(*graph, *j),
            r matches Ok(f) ==> loads_to(*graph, name@, *j, f) && f.wf() && f.valid(*graph),
            r matches Err(e) ==> {
                &&& (e == LoadError::MalformedCallStack) <==> !stack_structure_ok(j.callstack)
                &&& (e == LoadError::InvalidPointer) <==> (stack_structure_ok(j.callstack)
                        && !stack_pointers_ok(*graph, j.callstack))
                &&& (e == LoadError::ChoiceThreadUnavailable) <==> (stack_structure_ok(j.callstack)
                        && stack_pointers_ok(*graph, j.callstack)
                        && !choices_resolvable(*graph, *j))
            },
    {
        if j.callstack.threads.len() == 0 {
            return Err(LoadError::MalformedCallStack);
        }
        let mut ti: usize = 0;
        while ti < j.callstack.threads.len()
            invariant
                ti <= j.callstack.threads@.len(),
                forall|x: int| 0 <= x < ti
                    ==> (#[trigger] j.callstack.threads@[x]).elements@.len() >= 1
                        && j.callstack.threads@[x].thread_index < j.callstack.thread_counter,
            decreases j.callstack.threads@.len() - ti,
        {
            let t = &j.callstack.threads[ti];
            if t.elements.len() == 0 || t.thread_index >= j.callstack.thread_counter {
                return Err(LoadError::MalformedCallStack);
            }
            ti = ti + 1;
        }
        let mut pi: usize = 0;
        while pi < j.callstack.threads.len()
            invariant
                pi <= j.callstack.threads@.len(),
                stack_structure_ok(j.callstack),
                forall|x: int| 0 <= x < pi
                    ==> (#[trigger] j.callstack.threads@[x]).valid(*graph),
            decreases j.callstack.threads@.len() - pi,
        {
            if !j.callstack.threads[pi].check_valid(graph) {
                return Err(LoadError::InvalidPointer);
            }
            pi = pi + 1;
        }

        let mut current_choices: Vec<Choice> = Vec::new();
        let mut c: usize = 0;
        while c < j.current_choices.len()
            invariant
                c <= j.current_choices@.len(),
                current_choices@.len() == c,
                forall|x: int| 0 <= x < c
                    ==> choice_saved(#[trigger] current_choices@[x], j.current_choices@[x])
                        && current_choices@[x].thread_at_generation is None
                        && current_choices@[x].original_thread_index
                            == j.current_choices@[x].original_thread_index,
            decreases j.current_choices@.len() - c,
        {
            let cs = &j.current_choices[c];
            current_choices.push(Choice {
                text: cs.text.clone(),
                target_path: cs.target_path.duplicate(),
                original_thread_index: cs.original_thread_index,
                thread_at_generation: Option::None,
            });
            c = c + 1;
        }

        let mut flow = Flow {
            name: name.to_owned(),
            callstack: CallStack {
                threads: copy_threads(&j.callstack.threads),
                thread_counter: j.callstack.thread_counter,
            },
            output_stream: duplicate_outputs(&j.output_stream),
            current_choices,
        };

        proof {
            assert forall|x: int| 0 <= x < flow.callstack.threads@.len()
                implies (#[trigger] flow.callstack.threads@[x]).elements@.len() >= 1
                    && flow.callstack.threads@[x].thread_index < flow.callstack.thread_counter
                    && flow.callstack.threads@[x].valid(*graph) by {
                assert(thread_eq(&flow.callstack.threads@[x], &j.callstack.threads@[x]));
                assert(j.callstack.threads@[x].valid(*graph));
                assert(flow.callstack.threads@[x].elements@ == j.callstack.threads@[x].elements@);
            }
            assert(flow.callstack.wf());
            assert(flow.callstack.valid(*graph));
        }

        let ghost built = flow;
        let res = flow.load_flow_choice_threads(&j.choice_threads, graph);

        proof {
            // Liveness against the rebuilt stack coincides with liveness in
            // the persisted one: the thread identities match position for
            // position.
            assert forall|x: int| 0 <= x < built.current_choices@.len()
                implies (resolvable_against(
                    *graph,
                    built.callstack,
                    entries_opt(j.choice_threads),
                    (#[trigger] built.current_choices@[x]).original_thread_index,
                ) == choice_resolvable(
                    *graph,
                    *j,
                    j.current_choices@[x].original_thread_index,
                )) by {
                let idx = built.current_choices@[x].original_thread_index;
                assert(idx == j.current_choices@[x].original_thread_index);
                lemma_thread_pos_props(built.callstack, idx, 0);
                match built.callstack.thread_pos(idx) {
                    Some(p) => {
                        assert(j.callstack.threads@[p].thread_index == idx);
                        assert(snapshot_has_thread(j.callstack, idx));
                    },
                    None => {
                        if snapshot_has_thread(j.callstack, idx) {
                            let w = choose|w: int| 0 <= w < j.callstack.threads@.len()
                                && (#[trigger] j.callstack.threads@[w]).thread_index == idx;
                            assert(built.callstack.threads@[w].thread_index == idx);
                            assert(false);
                        }
                    },
                }
                assert(entries_opt(j.choice_threads) == entries_of(*j));
            }
        }

        match res {
            Ok(_) => {
                proof {
                    assert(choices_resolvable(*graph, *j)) by {
                        assert forall|x: int| 0 <= x < j.current_choices@.len()
                            implies choice_resolvable(
                                *graph,
                                *j,
                                (#[trigger] j.current_choices@[x]).original_thread_index,
                            ) by {
                            assert(resolvable_against(
                                *graph,
                                built.callstack,
                                entries_opt(j.choice_threads),
                                built.current_choices@[x].original_thread_index,
                            ));
                        }
                    }
                }
                Ok(flow)
            },
            Err(e) => {
                proof {
                    assert(!choices_resolvable(*graph, *j)) by {
                        if choices_resolvable(*graph, *j) {
                            assert forall|x: int| 0 <= x < built.current_choices@.len()
                                implies resolvable_against(
                                    *graph,
                                    built.callstack,
                                    entries_opt(j.choice_threads),
                                    (#[trigger] built.current_choices@[x]).original_thread_index,
                                ) by {
                                assert(choice_resolvable(
                                    *graph,
                                    *j,
                                    j.current_choices@[x].original_thread_index,
                                ));
                            }
                            assert(false);
                        }
                    }
                }
                Err(e)
            },
        }
    }
}

/// Structural equality of output entries is transitive.
proof fn lemma_output_eq_trans(a: &OutputObject, b: &OutputObject, c: &OutputObject)
    requires
        output_eq(a, b),
        output_eq(b, c),
    ensures
        output_eq(a, c),
{
}

/// The thread state choice `i` of `b` observes, held against `a`: the
/// thread still live in `a`'s stack under the choice's identity when
/// there is one, otherwise the generation-time snapshot of the last of
/// `a`'s choices sharing that identity (the keyed persisted form holds
/// one snapshot per identity, the later choice's).
pub open spec fn choice_thread_equiv(a: Flow, b: Flow, i: int) -> bool {
    match a.callstack.thread_pos(a.current_choices@[i].original_thread_index) {
        Some(p) => match b.current_choices@[i].thread_at_generation {
            Some(t) => thread_eq(&t, &a.callstack.threads@[p]),
            None => false,
        },
        None => exists|j: int|
            0 <= j < a.current_choices@.len()
            && (#[trigger] a.current_choices@[j]).original_thread_index
                == a.current_choices@[i].original_thread_index
            && (forall|j2: int| j < j2 < a.current_choices@.len()
                    ==> a.current_choices@[j2].original_thread_index
                        != a.current_choices@[i].original_thread_index)
            && match (b.current_choices@[i].thread_at_generation,
                      a.current_choices@[j].thread_at_generation) {
                (Some(t), Some(u)) => thread_eq(&t, &u),
                _ => false,
            },
    }
}

/// Observable equivalence after a persistence round trip: same output
/// stream, same call-stack shape, same choices with the same targets,
/// and each choice's originating-thread state resolvable as before.
pub open spec fn flow_equiv(a: Flow, b: Flow) -> bool {
    &&& b.name@ == a.name@
    &&& b.callstack.thread_counter == a.callstack.thread_counter
    &&& b.callstack.threads@.len() == a.callstack.threads@.len()
    &&& forall|i: int| 0 <= i < a.callstack.threads@.len()
            ==> thread_eq(&b.callstack.threads@[i], &a.callstack.threads@[i])
    &&& outputs_eq(b.output_stream@, a.output_stream@)
    &&& b.current_choices@.len() == a.current_choices@.len()
    &&& forall|i: int| 0 <= i < a.current_choices@.len()
            ==> choice_core_eq(&b.current_choices@[i], &a.current_choices@[i])
    &&& forall|i: int| 0 <= i < a.current_choices@.len()
            ==> choice_thread_equiv(a, b, i)
}

/// Saving a sound flow always yields a loadable snapshot: nothing a
/// well-formed, graph-valid flow writes can be refused by the loader.
pub proof fn lemma_save_loadable(g: StoryGraph, f: Flow, s: FlowSnapshot)
    requires
        f.wf(),
        f.valid(g),
        saves_to(f, s),
    ensures
        load_ok(g, s),
{
    assert forall|x: int| 0 <= x < s.callstack.threads@.len()
        implies (#[trigger] s.callstack.threads@[x]).elements@.len() >= 1
            && s.callstack.threads@[x].thread_index < s.callstack.thread_counter
            && s.callstack.threads@[x].valid(g) by {
        assert(thread_eq(&s.callstack.threads@[x], &f.callstack.threads@[x]));
        assert(f.callstack.threads@[x].elements@.len() >= 1);
        assert(f.callstack.threads@[x].valid(g));
        assert(s.callstack.threads@[x].elements@ == f.callstack.threads@[x].elements@);
    }
    assert forall|i: int| 0 <= i < s.current_choices@.len()
        implies choice_resolvable(g, s, (#[trigger] s.current_choices@[i]).original_thread_index) by {
        assert(choice_saved(f.current_choices@[i], s.current_choices@[i]));
        let idx = s.current_choices@[i].original_thread_index;
        assert(idx == f.current_choices@[i].original_thread_index);
        if f.callstack.has_live_thread(idx) {
            lemma_thread_pos_props(f.callstack, idx, 0);
            let p = f.callstack.thread_pos(idx)->Some_0;
            assert(thread_eq(&s.callstack.threads@[p], &f.callstack.threads@[p]));
            assert(s.callstack.threads@[p].thread_index == idx);
            assert(snapshot_has_thread(s.callstack, idx));
        } else {
            match s.choice_threads {
                Some(v) => {
                    assert(entries_ok(f, v@));
                    assert(entry_pos(v@, idx) is Some);
                    lemma_entry_pos_props(v@, idx, 0);
                    let k = entry_pos(v@, idx)->Some_0;
                    assert(entry_matches_last_choice_upto(f, v@[k], f.current_choices@.len() as int));
                    let j = choose|j: int|
                        0 <= j < f.current_choices@.len()
                        && (#[trigger] f.current_choices@[j]).original_thread_index
                            == v@[k].thread_index
                        && (forall|j2: int| j < j2 < f.current_choices@.len()
                                ==> f.current_choices@[j2].original_thread_index
                                    != v@[k].thread_index)
                        && match f.current_choices@[j].thread_at_generation {
                            Some(t) => thread_eq(&v@[k].thread, &t),
                            None => false,
                        };
                    let t = f.current_choices@[j].thread_at_generation->Some_0;
                    assert(t.thread_index == f.current_choices@[j].original_thread_index);
                    assert(t.valid(g));
                    assert(v@[k].thread.elements@ == t.elements@);
                    assert(entries_of(s) == v@);
                    assert(entry_usable(g, entries_of(s), idx));
                },
                None => {
                    assert(f.callstack.has_live_thread(
                        f.current_choices@[i].original_thread_index,
                    ));
                    assert(false);
                },
            }
        }
    }
}

/// The round-trip law: loading what a sound flow saved yields an
/// observably equivalent flow — same output, same call stack, same
/// choices, and each choice's originating-thread state recovered, from
/// the live stack when its thread survived and from the persisted
/// snapshot when it did not.
pub proof fn lemma_save_load_round_trip(g: StoryGraph, f: Flow, s: FlowSnapshot, f2: Flow)
    requires
        f.wf(),
        f.valid(g),
        saves_to(f, s),
        loads_to(g, f.name@, s, f2),
    ensures
        flow_equiv(f, f2),
{
    assert forall|i: int| 0 <= i < f.callstack.threads@.len()
        implies thread_eq(&f2.callstack.threads@[i], &f.callstack.threads@[i]) by {
        assert(thread_eq(&s.callstack.threads@[i], &f.callstack.threads@[i]));
        assert(thread_eq(&s.callstack.threads@[i], &f2.callstack.threads@[i]));
    }
    assert forall|i: int| 0 <= i < f.output_stream@.len()
        implies output_eq(&f2.output_stream@[i], &f.output_stream@[i]) by {
        lemma_output_eq_trans(
            &f2.output_stream@[i],
            &s.output_stream@[i],
            &f.output_stream@[i],
        );
    }
    assert forall|i: int| 0 <= i < f.current_choices@.len()
        implies choice_core_eq(&f2.current_choices@[i], &f.current_choices@[i]) by {
        assert(choice_saved(f.current_choices@[i], s.current_choices@[i]));
        assert(choice_saved(f2.current_choices@[i], s.current_choices@[i]));
    }
    assert forall|i: int| 0 <= i < f.current_choices@.len()
        implies choice_thread_equiv(f, f2, i) by {
        let idx = f.current_choices@[i].original_thread_index;
        assert(choice_saved(f.current_choices@[i], s.current_choices@[i]));
        assert(choice_saved(f2.current_choices@[i], s.current_choices@[i]));
        assert(f2.current_choices@[i].original_thread_index == idx);
        assert forall|k: int| 0 <= k < f.callstack.threads@.len()
            implies (#[trigger] f.callstack.threads@[k]).thread_index
                == f2.callstack.threads@[k].thread_index by {
            assert(thread_eq(&s.callstack.threads@[k], &f.callstack.threads@[k]));
            assert(thread_eq(&s.callstack.threads@[k], &f2.callstack.threads@[k]));
        }
        lemma_thread_pos_same_indices(f.callstack, f2.callstack, idx, 0);
        assert(choice_thread_attached(f2, entries_of(s), i));
        match f.callstack.thread_pos(idx) {
            Some(p) => {
                lemma_thread_pos_props(f.callstack, idx, 0);
                assert(thread_eq(&s.callstack.threads@[p], &f.callstack.threads@[p]));
                assert(thread_eq(&s.callstack.threads@[p], &f2.callstack.threads@[p]));
            },
            None => {
                match s.choice_threads {
                    Some(v) => {
                        assert(entries_ok(f, v@));
                        assert(entries_of(s) == v@);
                        lemma_entry_pos_props(v@, idx, 0);
                        let k = entry_pos(v@, idx)->Some_0;
                        assert(entry_pos(v@, idx) is Some) by {
                            assert(!f.callstack.has_live_thread(idx));
                        }
                        assert(entry_matches_last_choice_upto(
                            f,
                            v@[k],
                            f.current_choices@.len() as int,
                        ));
                        assert(v@[k].thread_index == idx);
                        let j = choose|j: int|
                            0 <= j < f.current_choices@.len()
                            && (#[trigger] f.current_choices@[j]).original_thread_index
                                == v@[k].thread_index
                            && (forall|j2: int| j < j2 < f.current_choices@.len()
                                    ==> f.current_choices@[j2].original_thread_index
                                        != v@[k].thread_index)
                            && match f.current_choices@[j].thread_at_generation {
                                Some(t) => thread_eq(&v@[k].thread, &t),
                                None => false,
                            };
                        let t2 = f2.current_choices@[i].thread_at_generation->Some_0;
                        let u = f.current_choices@[j].thread_at_generation->Some_0;
                        assert(thread_eq(&t2, &v@[k].thread));
                        assert(thread_eq(&t2, &u));
                    },
                    None => {
                        assert(f.callstack.has_live_thread(idx));
                        assert(false);
                    },
                }
            },
        }
    }
}

/// Invariant step for a choice whose originating thread is still live:
/// the entries are left as they were.
proof fn lemma_write_step_live(f: Flow, entries: Seq<ChoiceThreadEntry>, i: int)
    requires
        f.wf(),
        0 <= i < f.current_choices@.len(),
        f.callstack.has_live_thread(f.current_choices@[i].original_thread_index),
        partial_entries_ok(f, entries, i),
    ensures
        partial_entries_ok(f, entries, i + 1),
{
    assert forall|k: int| 0 <= k < entries.len()
        implies entry_matches_last_choice_upto(f, #[trigger] entries[k], i + 1) by {
        assert(entry_matches_last_choice_upto(f, entries[k], i));
        let j = choose|j: int|
            0 <= j < i
            && (#[trigger] f.current_choices@[j]).original_thread_index == entries[k].thread_index
            && (forall|j2: int| j < j2 < i
                    ==> f.current_choices@[j2].original_thread_index != entries[k].thread_index)
            && match f.current_choices@[j].thread_at_generation {
                Some(t) => thread_eq(&entries[k].thread, &t),
                None => false,
            };
        assert(!f.callstack.has_live_thread(entries[k].thread_index));
        assert(f.current_choices@[i].original_thread_index != entries[k].thread_index);
        assert(forall|j2: int| j < j2 < i + 1
            ==> f.current_choices@[j2].original_thread_index != entries[k].thread_index);
    }
}

/// Invariant step for a dead originating thread whose key was not yet
/// present: its entry is appended.
proof fn lemma_write_step_push(f: Flow, pre: Seq<ChoiceThreadEntry>, post: Seq<ChoiceThreadEntry>, i: int)
    requires
        f.wf(),
        0 <= i < f.current_choices@.len(),
        !f.callstack.has_live_thread(f.current_choices@[i].original_thread_index),
        partial_entries_ok(f, pre, i),
        entry_pos(pre, f.current_choices@[i].original_thread_index) is None,
        post.len() == pre.len() + 1,
        forall|k: int| 0 <= k < pre.len() ==> post[k] == pre[k],
        post.last().thread_index == f.current_choices@[i].original_thread_index,
        match f.current_choices@[i].thread_at_generation {
            Some(t) => thread_eq(&post.last().thread, &t),
            None => false,
        },
    ensures
        partial_entries_ok(f, post, i + 1),
{
    let idx = f.current_choices@[i].original_thread_index;
    lemma_entry_pos_props(pre, idx, 0);
    assert(post =~= pre.push(post.last()));
    // keys absent before stay found afterwards; the new key is served too
    assert forall|j: int|
        0 <= j < i + 1
        && !f.callstack.has_live_thread(
            (#[trigger] f.current_choices@[j]).original_thread_index,
        ) implies entry_pos(post, f.current_choices@[j].original_thread_index) is Some by {
        let jdx = f.current_choices@[j].original_thread_index;
        lemma_entry_pos_push(pre, post.last(), jdx, 0);
        if j < i {
            assert(entry_pos(pre, jdx) is Some);
        }
    }
    assert forall|k: int| 0 <= k < post.len()
        implies entry_matches_last_choice_upto(f, #[trigger] post[k], i + 1) by {
        if k < pre.len() {
            assert(entry_matches_last_choice_upto(f, pre[k], i));
            let j = choose|j: int|
                0 <= j < i
                && (#[trigger] f.current_choices@[j]).original_thread_index == pre[k].thread_index
                && (forall|j2: int| j < j2 < i
                        ==> f.current_choices@[j2].original_thread_index != pre[k].thread_index)
                && match f.current_choices@[j].thread_at_generation {
                    Some(t) => thread_eq(&pre[k].thread, &t),
                    None => false,
                };
            assert(pre[k].thread_index != idx);
            assert(forall|j2: int| j < j2 < i + 1
                ==> f.current_choices@[j2].original_thread_index != post[k].thread_index);
        } else {
            assert(post[k] == post.last());
            assert(forall|j2: int| i < j2 < i + 1
                ==> f.current_choices@[j2].original_thread_index != post[k].thread_index);
        }
    }
    // the appended key is first demanded at choice `i` itself: any earlier
    // choice carrying it was equally dead and would already have an entry
    assert forall|j: int| 0 <= j < i
        implies f.current_choices@[j].original_thread_index != idx by {
        if f.current_choices@[j].original_thread_index == idx {
            assert(entry_pos(pre, f.current_choices@[j].original_thread_index) is Some);
        }
    }
    lemma_choice_pos_props(f, idx, 0);
    assert(choice_first_pos(f, idx) == Some(i)) by {
        match choice_first_pos(f, idx) {
            Some(p) => {
                if p < i {
                } else if p > i {
                    assert(f.current_choices@[i].original_thread_index != idx);
                }
            },
            None => {
                assert(f.current_choices@[i].original_thread_index != idx);
            },
        }
    }
    assert forall|k1: int, k2: int| 0 <= k1 < k2 < post.len()
        implies keys_in_first_appearance_order(f, post[k1], post[k2]) by {
        if k2 < pre.len() {
            assert(keys_in_first_appearance_order(f, pre[k1], pre[k2]));
        } else {
            let j = choose|j: int|
                0 <= j < i
                && f.current_choices@[j].original_thread_index == pre[k1].thread_index
                && !f.callstack.has_live_thread(pre[k1].thread_index);
            lemma_choice_pos_props(f, pre[k1].thread_index, 0);
            match choice_first_pos(f, pre[k1].thread_index) {
                Some(p) => {
                    assert(p <= j < i);
                },
                None => {
                    assert(false);
                },
            }
        }
    }
}

/// Invariant step for a dead originating thread whose key is already
/// present: the entry's snapshot is replaced by this later choice's.
proof fn lemma_write_step_overwrite(f: Flow, pre: Seq<ChoiceThreadEntry>, post: Seq<ChoiceThreadEntry>, i: int, p: int)
    requires
        f.wf(),
        0 <= i < f.current_choices@.len(),
        !f.callstack.has_live_thread(f.current_choices@[i].original_thread_index),
        partial_entries_ok(f, pre, i),
        entry_pos(pre, f.current_choices@[i].original_thread_index) == Some(p),
        0 <= p < pre.len(),
        post.len() == pre.len(),
        forall|k: int| 0 <= k < pre.len() && k != p ==> post[k] == pre[k],
        post[p].thread_index == f.current_choices@[i].original_thread_index,
        match f.current_choices@[i].thread_at_generation {
            Some(t) => thread_eq(&post[p].thread, &t),
            None => false,
        },
    ensures
        partial_entries_ok(f, post, i + 1),
{
    let idx = f.current_choices@[i].original_thread_index;
    lemma_entry_pos_props(pre, idx, 0);
    assert(pre[p].thread_index == idx);
    assert(forall|k: int| 0 <= k < post.len() ==> post[k].thread_index == pre[k].thread_index);
    // replacing a snapshot never moves a key, so the order is untouched
    assert forall|k1: int, k2: int| 0 <= k1 < k2 < post.len()
        implies keys_in_first_appearance_order(f, post[k1], post[k2]) by {
        assert(post[k1].thread_index == pre[k1].thread_index);
        assert(post[k2].thread_index == pre[k2].thread_index);
        assert(keys_in_first_appearance_order(f, pre[k1], pre[k2]));
    }
    assert forall|j: int|
        0 <= j < i + 1
        && !f.callstack.has_live_thread(
            (#[trigger] f.current_choices@[j]).original_thread_index,
        ) implies entry_pos(post, f.current_choices@[j].original_thread_index) is Some by {
        let jdx = f.current_choices@[j].original_thread_index;
        lemma_entry_pos_same_keys(pre, post, jdx, 0);
        if j < i {
            assert(entry_pos(pre, jdx) is Some);
        }
    }
    assert forall|k: int| 0 <= k < post.len()
        implies entry_matches_last_choice_upto(f, #[trigger] post[k], i + 1) by {
        if k != p {
            assert(entry_matches_last_choice_upto(f, pre[k], i));
            let j = choose|j: int|
                0 <= j < i
                && (#[trigger] f.current_choices@[j]).original_thread_index == pre[k].thread_index
                && (forall|j2: int| j < j2 < i
                        ==> f.current_choices@[j2].original_thread_index != pre[k].thread_index)
                && match f.current_choices@[j].thread_at_generation {
                    Some(t) => thread_eq(&pre[k].thread, &t),
                    None => false,
                };
            assert(pre[k].thread_index != pre[p].thread_index);
            assert(forall|j2: int| j < j2 < i + 1
                ==> f.current_choices@[j2].original_thread_index != post[k].thread_index);
        } else {
            assert(forall|j2: int| i < j2 < i + 1
                ==> f.current_choices@[j2].original_thread_index != post[k].thread_index);
        }
    }
}

} // verus!
