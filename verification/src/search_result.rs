use vstd::prelude::*;
use crate::graph::StoryGraph;

verus! {

/// Outcome of resolving a path: the node found (or the deepest container
/// reached) and whether the match was only approximate.
#[derive(Clone, Copy, Debug)]
pub struct SearchResult {
    /// Arena id of the object found.
    pub obj: usize,
    /// True when resolution failed partway and `obj` is only the deepest
    /// container reached, not the requested target.
    pub approximate: bool,
}

impl SearchResult {
    pub fn new(obj: usize, approximate: bool) -> (r: SearchResult)
        ensures
            r.obj == obj,
            r.approximate == approximate,
    {
        SearchResult { obj, approximate }
    }

    pub fn from_search_result(sr: &SearchResult) -> (r: SearchResult)
        ensures
            r == *sr,
    {
        SearchResult { obj: sr.obj, approximate: sr.approximate }
    }

    /// The object, exactly when the match was exact.
    pub open spec fn correct_obj_spec(self) -> Option<usize> {
        if self.approximate {
            None
        } else {
            Some(self.obj)
        }
    }

    /// The found object if and only if the match was exact; an approximate
    /// result yields nothing, so it can never be mistaken for a real
    /// divert target.
    pub fn correct_obj(&self) -> (r: Option<usize>)
        ensures
            r == self.correct_obj_spec(),
    {
        if self.approximate {
            Option::None
        } else {
            Option::Some(self.obj)
        }
    }

    /// Narrow the found object to a container: its id if it is one in
    /// `graph`, nothing otherwise.
    pub fn container(&self, graph: &StoryGraph) -> (r: Option<usize>)
        ensures
            r == if graph.is_container(self.obj as int) {
                Some(self.obj)
            } else {
                None::<usize>
            },
    {
        if graph.node_is_container(self.obj) {
            Option::Some(self.obj)
        } else {
            Option::None
        }
    }
}

/// Exactness of search results: a result yields a correct (exact) object
/// precisely when it is not approximate — never both an exact flag and a
/// missing object, and never an object out of an approximate result.
pub proof fn lemma_search_result_exactness(sr: SearchResult)
    ensures
        !sr.approximate ==> sr.correct_obj_spec() == Some(sr.obj),
        sr.approximate ==> sr.correct_obj_spec() is None,
        (sr.correct_obj_spec() is Some) <==> !sr.approximate,
{
}

} // verus!
