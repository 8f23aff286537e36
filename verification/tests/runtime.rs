use storyflow::callstack::{CallStack, Element, PushPopType, StackError, Thread};
use storyflow::graph::StoryGraph;
use storyflow::pointer::Pointer;
use storyflow::story::Story;

#[test]
fn thread_copy_is_independent() {
    let mut a = Thread::new(4, Element::new(Pointer::new(0, 0), None, false));
    let b = a.copy();
    assert_eq!(b.thread_index, 4);
    assert_eq!(b.elements.len(), 1);

    // mutate the original after the copy
    a.elements.push(Element::new(Pointer::new(0, 9), Some(PushPopType::Tunnel), true));
    a.elements[0] = Element::new(Pointer::null(), None, true);

    // the copy still observes the frame sequence from copy time
    assert_eq!(b.elements.len(), 1);
    assert_eq!(b.elements[0].pointer.container, Some(0));
    assert_eq!(b.elements[0].pointer.index, 0);
    assert_eq!(b.elements[0].push_pop_type, None);
    assert!(!b.elements[0].in_expression_evaluation);

    // and mutating the copy leaves the original alone
    let mut c = a.copy();
    c.elements.clear();
    assert_eq!(a.elements.len(), 2);
}

#[test]
fn push_then_mismatched_pop_fails() {
    let mut cs = CallStack::new(0);
    cs.push(PushPopType::Tunnel, Pointer::new(0, 1));
    assert_eq!(cs.depth(), 2);

    // popping with the wrong tag is an unbalanced pop and changes nothing
    let r = cs.pop(Some(PushPopType::Function));
    assert_eq!(r, Err(StackError::UnbalancedPop));
    assert_eq!(cs.depth(), 2);

    // popping with the matching tag restores the prior depth
    let r2 = cs.pop(Some(PushPopType::Tunnel));
    assert_eq!(r2, Ok(()));
    assert_eq!(cs.depth(), 1);

    // the base frame can never be popped
    let r3 = cs.pop(None);
    assert_eq!(r3, Err(StackError::UnbalancedPop));
    assert_eq!(cs.depth(), 1);
}

#[test]
fn untyped_pop_takes_any_tag() {
    let mut cs = CallStack::new(0);
    cs.push(PushPopType::Function, Pointer::new(0, 3));
    assert!(cs.can_pop(None));
    assert!(cs.can_pop(Some(PushPopType::Function)));
    assert!(!cs.can_pop(Some(PushPopType::Tunnel)));
    assert!(!cs.can_pop(Some(PushPopType::FunctionEvaluationFromGame)));
    assert_eq!(cs.pop(None), Ok(()));
    assert_eq!(cs.depth(), 1);
}

#[test]
fn thread_fork_and_lookup() {
    let mut cs = CallStack::new(0);
    assert_eq!(cs.get_thread_with_index(0).unwrap().thread_index, 0);
    assert!(cs.get_thread_with_index(1).is_none());

    cs.push_thread();
    assert_eq!(cs.get_thread_with_index(1).unwrap().thread_index, 1);

    cs.pop_thread().unwrap();
    assert!(cs.get_thread_with_index(1).is_none());
    assert_eq!(cs.pop_thread(), Err(StackError::CannotPopThread));
}

fn story_with_knot() -> (Story, usize) {
    let mut g = StoryGraph::new();
    let hello = g.add_container(0, Some("hello".to_string()));
    (Story::new(g), hello)
}

#[test]
fn hard_error_is_logged_and_ends_evaluation() {
    let (mut story, hello) = story_with_knot();
    story.set_current_pointer(Pointer::new(hello, 0));
    assert!(!story.has_error());
    assert!(!story.has_ended());

    story.add_error("boom", false);

    assert!(story.has_error());
    assert_eq!(story.get_current_errors().len(), 1);
    assert_eq!(story.get_current_errors()[0], "RUNTIME ERROR: (hello.0): boom");
    assert_eq!(story.get_current_warnings().len(), 0);
    assert!(story.has_ended());
}

#[test]
fn warning_is_logged_and_does_not_end_evaluation() {
    let (mut story, hello) = story_with_knot();
    story.set_current_pointer(Pointer::new(hello, 2));

    story.add_error("careful", true);

    assert!(!story.has_error());
    assert!(!story.has_ended());
    assert_eq!(story.get_current_warnings().len(), 1);
    assert_eq!(story.get_current_warnings()[0], "RUNTIME WARNING: (hello.2): careful");
}

#[test]
fn null_pointer_report_has_no_path() {
    let (mut story, _) = story_with_knot();
    story.add_error("lost", false);
    assert_eq!(story.get_current_errors()[0], "RUNTIME ERROR: lost");
}

#[test]
fn root_pointer_report_uses_index_alone() {
    let (mut story, _) = story_with_knot();
    story.set_current_pointer(Pointer::new(0, 35));
    story.add_error("deep trouble", false);
    assert_eq!(story.get_current_errors()[0], "RUNTIME ERROR: (35): deep trouble");
}

#[test]
fn reset_errors_clears_both_logs() {
    let (mut story, hello) = story_with_knot();
    story.set_current_pointer(Pointer::new(hello, 0));
    story.add_error("boom", false);
    story.add_error("careful", true);
    story.reset_errors();
    assert_eq!(story.get_current_errors().len(), 0);
    assert_eq!(story.get_current_warnings().len(), 0);
    // a reset touches only the logs, not execution state
    assert!(story.has_ended());
}
