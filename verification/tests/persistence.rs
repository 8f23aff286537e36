use storyflow::callstack::{Element, PushPopType, Thread};
use storyflow::choice::Choice;
use storyflow::flow::{CallStackSnapshot, Flow, FlowSnapshot, LoadError, OutputObject};
use storyflow::graph::StoryGraph;
use storyflow::path::{Path, PathComponent};
use storyflow::pointer::Pointer;
use storyflow::value::Value;

fn sample_graph() -> (StoryGraph, usize, usize) {
    let mut g = StoryGraph::new();
    let hello = g.add_container(0, Some("hello".to_string()));
    let world = g.add_container(hello, Some("world".to_string()));
    (g, hello, world)
}

fn target(name: &str) -> Path {
    Path::with_components(vec![PathComponent::Name(name.to_string())])
}

fn current_thread_copy(f: &Flow) -> Thread {
    let idx = f.callstack.threads[f.callstack.threads.len() - 1].thread_index;
    f.callstack.get_thread_with_index(idx).unwrap().copy()
}

#[test]
fn round_trip_preserves_output_and_choices() {
    let (g, hello, world) = sample_graph();
    let mut f = Flow::new("main", 0);
    f.add_output(OutputObject::Val(Value::from_text("Hello there.")));
    f.add_output(OutputObject::Tag("mood: calm".to_string()));
    f.add_output(OutputObject::Glue);
    f.add_output(OutputObject::Val(Value::from_int(12)));
    f.add_output(OutputObject::Val(Value::from_float_bits(0x3F80_0000)));
    f.add_output(OutputObject::Val(Value::from_divert_target(target("hello"))));
    f.callstack.push(PushPopType::Tunnel, Pointer::new(hello, 1));
    f.callstack.push(PushPopType::Function, Pointer::new(world, 0));
    let t = current_thread_copy(&f);
    f.set_choices(vec![Choice::new("Go".to_string(), target("hello"), t)]);

    let snap = f.write_json();
    // no choice thread entry is needed: the originating thread is live
    assert!(snap.choice_threads.is_none());

    let f2 = Flow::from_json("main", &g, &snap).expect("snapshot must load");
    assert_eq!(f2.name, "main");
    assert_eq!(f2.output_stream.len(), 6);
    match &f2.output_stream[0] {
        OutputObject::Val(v) => assert_eq!(v.as_string().unwrap().text, "Hello there."),
        _ => panic!("expected a value"),
    }
    match &f2.output_stream[1] {
        OutputObject::Tag(s) => assert_eq!(s, "mood: calm"),
        _ => panic!("expected a tag"),
    }
    assert!(matches!(f2.output_stream[2], OutputObject::Glue));
    match &f2.output_stream[3] {
        OutputObject::Val(v) => assert_eq!(v.as_int(), Ok(12)),
        _ => panic!("expected a value"),
    }
    match &f2.output_stream[4] {
        OutputObject::Val(v) => assert_eq!(v.as_float_bits(), Ok(0x3F80_0000)),
        _ => panic!("expected a value"),
    }
    match &f2.output_stream[5] {
        OutputObject::Val(v) => {
            let p = v.as_divert_target().unwrap();
            assert_eq!(p.components.len(), 1);
        },
        _ => panic!("expected a value"),
    }

    // the call stack kept its shape
    assert_eq!(f2.callstack.thread_counter, f.callstack.thread_counter);
    assert_eq!(f2.callstack.threads.len(), 1);
    let frames = &f2.callstack.threads[0].elements;
    assert_eq!(frames.len(), 3);
    assert_eq!(frames[1].push_pop_type, Some(PushPopType::Tunnel));
    assert_eq!(frames[1].pointer.container, Some(hello));
    assert_eq!(frames[1].pointer.index, 1);
    assert_eq!(frames[2].push_pop_type, Some(PushPopType::Function));

    // the choice came back with its originating thread resolvable
    assert_eq!(f2.current_choices.len(), 1);
    let c = &f2.current_choices[0];
    assert_eq!(c.text, "Go");
    assert_eq!(c.original_thread_index, 0);
    assert_eq!(c.thread_at_generation.as_ref().unwrap().thread_index, 0);
}

#[test]
fn dead_choice_thread_is_persisted_and_recovered() {
    let (g, _, _) = sample_graph();
    let mut f = Flow::new("f", 0);

    // fork a thread, generate a choice on it, then discard the fork
    f.callstack.push_thread();
    let forked = current_thread_copy(&f);
    assert_eq!(forked.thread_index, 1);
    let choice_a = Choice::new("A".to_string(), target("hello"), forked);
    f.callstack.pop_thread().unwrap();

    // a second choice on the surviving base thread
    let base = f.callstack.get_thread_with_index(0).unwrap().copy();
    let choice_b = Choice::new("B".to_string(), target("hello"), base);

    f.set_choices(vec![choice_a, choice_b]);

    let snap = f.write_json();
    // exactly one choice-thread entry: the discarded thread, keyed by its
    // identity; the live one needs none
    let entries = snap.choice_threads.as_ref().expect("entry expected");
    assert_eq!(entries.len(), 1);
    assert_eq!(entries[0].thread_index, 1);

    let f2 = Flow::from_json("f", &g, &snap).expect("snapshot must load");
    assert_eq!(f2.current_choices.len(), 2);
    let a = &f2.current_choices[0];
    assert_eq!(a.original_thread_index, 1);
    assert_eq!(a.thread_at_generation.as_ref().unwrap().thread_index, 1);
    let b = &f2.current_choices[1];
    assert_eq!(b.original_thread_index, 0);
    assert_eq!(b.thread_at_generation.as_ref().unwrap().thread_index, 0);
}

#[test]
fn dead_thread_entries_keep_first_appearance_order() {
    let (g, _, _) = sample_graph();
    let mut f = Flow::new("f", 0);

    f.callstack.push_thread();
    let first_fork = current_thread_copy(&f);
    f.callstack.pop_thread().unwrap();
    f.callstack.push_thread();
    let second_fork = current_thread_copy(&f);
    f.callstack.pop_thread().unwrap();
    assert_eq!(first_fork.thread_index, 1);
    assert_eq!(second_fork.thread_index, 2);

    f.set_choices(vec![
        Choice::new("A".to_string(), target("hello"), first_fork),
        Choice::new("B".to_string(), target("hello"), second_fork),
    ]);

    let snap = f.write_json();
    let entries = snap.choice_threads.as_ref().expect("entries expected");
    assert_eq!(entries.len(), 2);
    assert_eq!(entries[0].thread_index, 1);
    assert_eq!(entries[1].thread_index, 2);

    let f2 = Flow::from_json("f", &g, &snap).expect("snapshot must load");
    assert_eq!(f2.current_choices[0].thread_at_generation.as_ref().unwrap().thread_index, 1);
    assert_eq!(f2.current_choices[1].thread_at_generation.as_ref().unwrap().thread_index, 2);
}

#[test]
fn shared_dead_identity_keeps_last_snapshot() {
    let (g, hello, _) = sample_graph();
    let mut f = Flow::new("f", 0);

    // two choices generated on the same forked thread, at different depths
    f.callstack.push_thread();
    let early = current_thread_copy(&f);
    f.callstack.push(PushPopType::Tunnel, Pointer::new(hello, 0));
    let late = current_thread_copy(&f);
    f.callstack.pop_thread().unwrap();
    assert_eq!(early.elements.len(), 1);
    assert_eq!(late.elements.len(), 2);

    f.set_choices(vec![
        Choice::new("A".to_string(), target("hello"), early),
        Choice::new("B".to_string(), target("hello"), late),
    ]);

    // the keyed map holds one snapshot per identity: the later one
    let snap = f.write_json();
    let entries = snap.choice_threads.as_ref().expect("entry expected");
    assert_eq!(entries.len(), 1);
    assert_eq!(entries[0].thread_index, 1);
    assert_eq!(entries[0].thread.elements.len(), 2);

    // both loaded choices resolve to that persisted snapshot
    let f2 = Flow::from_json("f", &g, &snap).expect("snapshot must load");
    assert_eq!(f2.current_choices[0].thread_at_generation.as_ref().unwrap().elements.len(), 2);
    assert_eq!(f2.current_choices[1].thread_at_generation.as_ref().unwrap().elements.len(), 2);
}

#[test]
fn empty_callstack_snapshot_is_refused() {
    let (g, _, _) = sample_graph();
    let snap = FlowSnapshot {
        callstack: CallStackSnapshot { threads: vec![], thread_counter: 0 },
        output_stream: vec![],
        choice_threads: None,
        current_choices: vec![],
    };
    assert_eq!(Flow::from_json("x", &g, &snap).err(), Some(LoadError::MalformedCallStack));
}

#[test]
fn thread_index_at_counter_is_refused() {
    let (g, _, _) = sample_graph();
    let f = Flow::new("x", 0);
    let mut snap = f.write_json();
    snap.callstack.thread_counter = 0;
    assert_eq!(Flow::from_json("x", &g, &snap).err(), Some(LoadError::MalformedCallStack));
}

#[test]
fn dangling_pointer_is_refused() {
    let (g, _, _) = sample_graph();
    let snap = FlowSnapshot {
        callstack: CallStackSnapshot {
            threads: vec![Thread::new(0, Element::new(Pointer::new(99, 0), None, false))],
            thread_counter: 1,
        },
        output_stream: vec![],
        choice_threads: None,
        current_choices: vec![],
    };
    assert_eq!(Flow::from_json("x", &g, &snap).err(), Some(LoadError::InvalidPointer));
}

#[test]
fn unresolvable_choice_thread_is_refused() {
    let (g, _, _) = sample_graph();
    let mut f = Flow::new("f", 0);
    let base = f.callstack.get_thread_with_index(0).unwrap().copy();
    f.set_choices(vec![Choice::new("A".to_string(), target("hello"), base)]);
    let mut snap = f.write_json();
    // point the persisted choice at a thread that is neither live nor saved
    snap.current_choices[0].original_thread_index = 9;
    assert_eq!(
        Flow::from_json("f", &g, &snap).err(),
        Some(LoadError::ChoiceThreadUnavailable)
    );
}

#[test]
fn fresh_flow_is_empty() {
    let (_, _, _) = sample_graph();
    let f = Flow::new("main", 0);
    assert_eq!(f.name, "main");
    assert!(f.output_stream.is_empty());
    assert!(f.current_choices.is_empty());
    assert_eq!(f.callstack.threads.len(), 1);
    assert_eq!(f.callstack.threads[0].elements.len(), 1);
    assert_eq!(f.callstack.threads[0].elements[0].pointer.container, Some(0));
}
