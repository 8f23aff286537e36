//! Execution-state core of an interactive-narrative runtime.
//!
//! The static story graph is an immutable arena of content nodes. On top of
//! it live the mutable pieces of an execution: pointers, call stacks made of
//! forkable threads, flows that bundle a call stack with an output stream and
//! pending choices, and a deterministic snapshot form that round-trips a flow
//! exactly.

pub mod callstack;
pub mod choice;
pub mod flow;
pub mod graph;
pub mod path;
pub mod pointer;
pub mod render;
pub mod search_result;
pub mod story;
pub mod value;
