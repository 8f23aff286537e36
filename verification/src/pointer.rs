use vstd::prelude::*;
use crate::graph::StoryGraph;

verus! {

/// An execution cursor: a container and an index into its children.
/// The null pointer (no container) means "no current position".
#[derive(Clone, Copy, Debug)]
pub struct Pointer {
    /// Arena id of the container currently executed, or `None` for null.
    pub container: Option<usize>,
    /// Index of the next child to execute inside that container.
    pub index: usize,
}

impl Pointer {
    pub open spec fn is_null_spec(self) -> bool {
        self.container is None
    }

    /// A pointer either is null or names a container of the graph.
    pub open spec fn valid(self, g: StoryGraph) -> bool {
        match self.container {
            Some(c) => g.is_container(c as int),
            None => true,
        }
    }

    pub fn null() -> (r: Pointer)
        ensures
            r.is_null_spec(),
            r.index == 0,
    {
        Pointer { container: Option::None, index: 0 }
    }

    pub fn new(container: usize, index: usize) -> (r: Pointer)
        ensures
            r.container == Some(container),
            r.index == index,
    {
        Pointer { container: Option::Some(container), index }
    }

    /// Runtime check of `valid`: null, or naming a container of `g`.
    pub fn check_valid(&self, g: &StoryGraph) -> (r: bool)
        ensures
            r == self.valid(*g),
    {
        match self.container {
            Option::Some(c) => g.node_is_container(c),
            Option::None => true,
        }
    }

    pub fn is_null(&self) -> (r: bool)
        ensures
            r == self.is_null_spec(),
    {
        match self.container {
            Option::None => true,
            Option::Some(_) => false,
        }
    }
}

} // verus!
