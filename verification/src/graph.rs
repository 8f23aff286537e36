use vstd::prelude::*;
use crate::path::{Path, PathComponent};
use crate::value::Value;
use crate::search_result::SearchResult;

verus! {

/// What a node of the static story graph is: a container of ordered
/// children, or one of the leaf instructions the engine steps over.
pub enum NodeContent {
    /// Ordered children, addressed by position and, when named, by name.
    Container { children: Vec<usize> },
    /// An embedded runtime value (text, number, divert target, ...).
    Val(Value),
    /// A choice point the engine may surface to the player.
    ChoicePoint { target: Path },
    /// An unconditional jump to another node.
    Divert { target: Path },
    /// A glue marker joining adjacent output.
    Glue,
}

/// One node of the arena: its place in the tree plus its content.
pub struct Node {
    /// Arena id of the parent container; `None` only for the root.
    pub parent: Option<usize>,
    /// Name under which the parent addresses this node, if any.
    pub name: Option<String>,
    /// Position of this node among its parent's children.
    pub index_in_parent: usize,
    pub content: NodeContent,
}

/// The static story graph: an arena of nodes addressed by stable ids.
/// Node 0 is the root container. The graph is built once and never
/// mutated afterwards; every pointer and path stores ids into it.
pub struct StoryGraph {
    pub nodes: Vec<Node>,
}

impl StoryGraph {
    pub open spec fn is_node(self, id: int) -> bool {
        0 <= id < self.nodes@.len()
    }

    pub open spec fn is_container(self, id: int) -> bool {
        self.is_node(id) && self.nodes@[id].content is Container
    }

    /// The ordered child ids of a container (empty for a leaf).
    pub open spec fn children_of(self, id: int) -> Seq<usize> {
        match self.nodes@[id].content {
            NodeContent::Container { children } => children@,
            _ => Seq::empty(),
        }
    }

    /// Arena well-formedness: a rooted tree whose parent links point
    /// strictly backwards (parents are allocated before their children),
    /// whose child ids are in bounds, and whose child/parent bookkeeping
    /// agrees in both directions.
    pub open spec fn wf(self) -> bool {
        &&& 1 <= self.nodes@.len()
        &&& self.nodes@[0].parent is None
        &&& self.is_container(0)
        &&& forall|i: int| 0 < i < self.nodes@.len() ==>
                ((#[trigger] self.nodes@[i]).parent matches Some(p) && p < i)
        &&& forall|i: int, k: int|
                0 <= i < self.nodes@.len() && 0 <= k < self.children_of(i).len() ==>
                    0 < #[trigger] self.children_of(i)[k] < self.nodes@.len()
        &&& forall|i: int, k: int|
                0 <= i < self.nodes@.len() && 0 <= k < self.children_of(i).len() ==>
                    (#[trigger] self.nodes@[self.children_of(i)[k] as int].parent)
                        == Some(i as usize)
                    && self.nodes@[self.children_of(i)[k] as int].index_in_parent == k
    }

    /// A fresh graph holding only an empty root container.
    pub fn new() -> (r: StoryGraph)
        ensures
            r.wf(),
            r.nodes@.len() == 1,
            r.children_of(0).len() == 0,
    {
        let mut nodes: Vec<Node> = Vec::new();
        nodes.push(Node {
            parent: Option::None,
            name: Option::None,
            index_in_parent: 0,
            content: NodeContent::Container { children: Vec::new() },
        });
        StoryGraph { nodes }
    }

    pub fn node_count(&self) -> (r: usize)
        ensures
            r == self.nodes@.len(),
    {
        self.nodes.len()
    }

    /// Whether `id` names a container node.
    pub fn node_is_container(&self, id: usize) -> (r: bool)
        ensures
            r == self.is_container(id as int),
    {
        if id < self.nodes.len() {
            match &self.nodes[id].content {
                NodeContent::Container { .. } => true,
                _ => false,
            }
        } else {
            false
        }
    }

    /// Append a fresh empty container under `parent_id`.
    pub fn add_container(&mut self, parent_id: usize, name: Option<String>) -> (r: usize)
        requires
            old(self).wf(),
            old(self).is_container(parent_id as int),
        ensures
            self_extended_with(*old(self), *final(self), parent_id, r),
            final(self).nodes@[r as int].name == name,
            final(self).is_container(r as int),
            final(self).children_of(r as int).len() == 0,
            final(self).wf(),
    {
        self.add_node(parent_id, name, NodeContent::Container { children: Vec::new() })
    }

    /// Append a fresh leaf node under `parent_id`.
    pub fn add_leaf(&mut self, parent_id: usize, name: Option<String>, content: NodeContent) -> (r: usize)
        requires
            old(self).wf(),
            old(self).is_container(parent_id as int),
            !(content is Container),
        ensures
            self_extended_with(*old(self), *final(self), parent_id, r),
            final(self).nodes@[r as int].name == name,
            final(self).nodes@[r as int].content == content,
            final(self).wf(),
    {
        self.add_node(parent_id, name, content)
    }

    fn add_node(&mut self, parent_id: usize, name: Option<String>, content: NodeContent) -> (r: usize)
        requires
            old(self).wf(),
            old(self).is_container(parent_id as int),
            content matches NodeContent::Container { children } ==> children@.len() == 0,
        ensures
            self_extended_with(*old(self), *final(self), parent_id, r),
            final(self).nodes@[r as int].name == name,
            final(self).nodes@[r as int].content == content,
            final(self).wf(),
    {
        let new_id = self.nodes.len();
        let sibling_count = match &self.nodes[parent_id].content {
            NodeContent::Container { children } => children.len(),
            _ => {
                proof { assert(false); }
                0
            },
        };
        self.nodes.push(Node {
            parent: Option::Some(parent_id),
            name,
            index_in_parent: sibling_count,
            content,
        });
        match &mut self.nodes[parent_id].content {
            NodeContent::Container { children } => children.push(new_id),
            _ => {
                proof { assert(false); }
            },
        }
        proof {
            let pre = *old(self);
            let post = *self;
            assert forall|i: int| 0 <= i < post.nodes@.len() && i != parent_id && i != new_id
                implies post.nodes@[i] == pre.nodes@[i] by {}
            assert(post.children_of(parent_id as int)
                =~= pre.children_of(parent_id as int).push(new_id));
            assert forall|i: int, k: int|
                0 <= i < post.nodes@.len() && 0 <= k < post.children_of(i).len()
                implies 0 < #[trigger] post.children_of(i)[k] < post.nodes@.len() by {
                if i == new_id {
                } else if i == parent_id {
                    if k < pre.children_of(i).len() {
                        assert(post.children_of(i)[k] == pre.children_of(i)[k]);
                    }
                } else {
                    assert(post.children_of(i) == pre.children_of(i));
                }
            }
            assert forall|i: int, k: int|
                0 <= i < post.nodes@.len() && 0 <= k < post.children_of(i).len()
                implies (#[trigger] post.nodes@[post.children_of(i)[k] as int].parent)
                    == Some(i as usize)
                    && post.nodes@[post.children_of(i)[k] as int].index_in_parent == k by {
                if i == new_id {
                } else if i == parent_id {
                    if k < pre.children_of(i).len() {
                        assert(post.children_of(i)[k] == pre.children_of(i)[k]);
                        assert(pre.nodes@[pre.children_of(i)[k] as int].parent == Some(i as usize));
                    } else {
                        assert(post.children_of(i)[k] == new_id);
                    }
                } else {
                    assert(post.children_of(i) == pre.children_of(i));
                    assert(pre.nodes@[pre.children_of(i)[k] as int].parent == Some(i as usize));
                }
            }
        }
        new_id
    }

    /// The first child of `c`, in order, carrying the given name.
    pub open spec fn first_named_at(self, kids: Seq<usize>, name: Seq<char>, from: int) -> Option<usize>
        decreases kids.len() - from,
    {
        if from < 0 || from >= kids.len() {
            None
        } else if self.node_has_name(kids[from], name) {
            Some(kids[from])
        } else {
            self.first_named_at(kids, name, from + 1)
        }
    }

    pub open spec fn node_has_name(self, id: usize, name: Seq<char>) -> bool {
        self.is_node(id as int) && match self.nodes@[id as int].name {
            Some(n) => n@ == name,
            None => false,
        }
    }

    pub open spec fn named_child(self, c: int, name: Seq<char>) -> Option<usize> {
        self.first_named_at(self.children_of(c), name, 0)
    }

    /// Look up a named child of container `c`.
    pub fn find_named(&self, c: usize, name: &String) -> (r: Option<usize>)
        requires
            self.wf(),
            self.is_container(c as int),
        ensures
            r == self.named_child(c as int, name@),
    {
        match &self.nodes[c].content {
            NodeContent::Container { children } => self.find_named_from(children, name, 0, Ghost(c as int)),
            _ => {
                proof { assert(false); }
                Option::None
            },
        }
    }

    fn find_named_from(&self, kids: &Vec<usize>, name: &String, from: usize, c: Ghost<int>) -> (r: Option<usize>)
        requires
            self.wf(),
            self.is_container(c@),
            kids@ == self.children_of(c@),
            from <= kids@.len(),
        ensures
            r == self.first_named_at(kids@, name@, from as int),
        decreases kids@.len() - from,
    {
        if from == kids.len() {
            return Option::None;
        }
        let child = kids[from];
        proof {
            assert(kids@[from as int] == self.children_of(c@)[from as int]);
            assert(0 < self.children_of(c@)[from as int] < self.nodes@.len());
        }
        let matches_here = match &self.nodes[child].name {
            Option::Some(n) => n.eq(name),
            Option::None => false,
        };
        if matches_here {
            Option::Some(child)
        } else {
            self.find_named_from(kids, name, from + 1, c)
        }
    }

    /// Exact resolution of a path's components starting at node `cur`:
    /// `Some` of the target when every component matches, `None` otherwise.
    /// Every node crossed before the last component must be a container.
    pub open spec fn resolve_from(self, cur: usize, comps: Seq<PathComponent>, k: int) -> Option<usize>
        decreases comps.len() - k,
    {
        if k < 0 || k >= comps.len() {
            Some(cur)
        } else if !self.is_container(cur as int) {
            None
        } else {
            match self.step_spec(cur, comps[k]) {
                Some(c) => self.resolve_from(c, comps, k + 1),
                None => None,
            }
        }
    }

    /// One resolution step out of container `cur`.
    pub open spec fn step_spec(self, cur: usize, comp: PathComponent) -> Option<usize> {
        match comp {
            PathComponent::Name(s) => self.named_child(cur as int, s@),
            PathComponent::Index(i) => if i < self.children_of(cur as int).len() {
                Some(self.children_of(cur as int)[i as int])
            } else {
                None
            },
        }
    }

    /// The deepest container reached while walking the components; this is
    /// what an approximate search result reports.
    pub open spec fn deepest_container_from(self, cur: usize, comps: Seq<PathComponent>, k: int) -> usize
        decreases comps.len() - k,
    {
        if k < 0 || k >= comps.len() {
            cur
        } else {
            match self.step_spec(cur, comps[k]) {
                Some(c) => if self.is_container(c as int) {
                    self.deepest_container_from(c, comps, k + 1)
                } else {
                    cur
                },
                None => cur,
            }
        }
    }

    /// Resolve `p` against the container `start`. On full success the result
    /// is exact; otherwise it reports the deepest container reached with
    /// `approximate` set, which callers must not treat as a divert target.
    pub fn resolve(&self, start: usize, p: &Path) -> (r: SearchResult)
        requires
            self.wf(),
            self.is_container(start as int),
        ensures
            match self.resolve_from(start, p.components@, 0) {
                Some(id) => !r.approximate && r.obj == id,
                None => r.approximate
                    && r.obj == self.deepest_container_from(start, p.components@, 0),
            },
            r.approximate ==> self.is_container(r.obj as int),
    {
        self.resolve_rec(start, p, 0)
    }

    fn resolve_rec(&self, cur: usize, p: &Path, k: usize) -> (r: SearchResult)
        requires
            self.wf(),
            self.is_container(cur as int),
            k <= p.components@.len(),
        ensures
            match self.resolve_from(cur, p.components@, k as int) {
                Some(id) => !r.approximate && r.obj == id,
                None => r.approximate
                    && r.obj == self.deepest_container_from(cur, p.components@, k as int),
            },
            r.approximate ==> self.is_container(r.obj as int),
        decreases p.components@.len() - k,
    {
        if k == p.components.len() {
            return SearchResult::new(cur, false);
        }
        let step = match &p.components[k] {
            PathComponent::Name(s) => self.find_named(cur, s),
            PathComponent::Index(i) => {
                match &self.nodes[cur].content {
                    NodeContent::Container { children } => {
                        if *i < children.len() {
                            Option::Some(children[*i])
                        } else {
                            Option::None
                        }
                    },
                    _ => {
                        proof { assert(false); }
                        Option::None
                    },
                }
            },
        };
        proof {
            assert(step == self.step_spec(cur, p.components@[k as int]));
        }
        match step {
            Option::Some(c) => {
                if k + 1 == p.components.len() {
                    proof {
                        assert(self.resolve_from(c, p.components@, k as int + 1) == Some(c));
                    }
                    SearchResult::new(c, false)
                } else if self.node_is_container(c) {
                    self.resolve_rec(c, p, k + 1)
                } else {
                    proof {
                        assert(self.resolve_from(c, p.components@, k as int + 1) is None);
                        assert(self.deepest_container_from(cur, p.components@, k as int) == cur);
                    }
                    SearchResult::new(cur, true)
                }
            },
            Option::None => SearchResult::new(cur, true),
        }
    }
}

/// The second graph is the first with one node appended under
/// `parent_id` at id `r`; nothing else moved.
pub open spec fn self_extended_with(pre: StoryGraph, post: StoryGraph, parent_id: usize, r: usize) -> bool {
    &&& r == pre.nodes@.len()
    &&& post.nodes@.len() == pre.nodes@.len() + 1
    &&& forall|i: int| 0 <= i < pre.nodes@.len() && i != parent_id
            ==> post.nodes@[i] == pre.nodes@[i]
    &&& post.nodes@[parent_id as int].parent == pre.nodes@[parent_id as int].parent
    &&& post.nodes@[parent_id as int].name == pre.nodes@[parent_id as int].name
    &&& post.nodes@[parent_id as int].index_in_parent
            == pre.nodes@[parent_id as int].index_in_parent
    &&& post.children_of(parent_id as int)
            == pre.children_of(parent_id as int).push(r)
    &&& post.nodes@[r as int].parent == Some(parent_id)
    &&& post.nodes@[r as int].index_in_parent == pre.children_of(parent_id as int).len()
}

} // verus!
