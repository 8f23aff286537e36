use vstd::prelude::*;

verus! {

/// One step of a path: a named child, or a positional index into a
/// container's ordered children.
pub enum PathComponent {
    Name(String),
    Index(usize),
}

impl PathComponent {
    /// Structural duplicate; the result is spec-equal to the original.
    pub fn duplicate(&self) -> (r: PathComponent)
        ensures
            r == *self,
    {
        match self {
            PathComponent::Name(s) => PathComponent::Name(s.clone()),
            PathComponent::Index(i) => PathComponent::Index(*i),
        }
    }
}

/// An ordered address into the container tree, resolved relative to some
/// base container.
pub struct Path {
    pub components: Vec<PathComponent>,
}

/// Two paths address the same location: their component sequences agree.
pub open spec fn path_eq(a: &Path, b: &Path) -> bool {
    a.components@ == b.components@
}

impl Path {
    /// The empty path, addressing the base container itself.
    pub fn new() -> (r: Path)
        ensures
            r.components@ == Seq::<PathComponent>::empty(),
    {
        Path { components: Vec::new() }
    }

    pub fn with_components(components: Vec<PathComponent>) -> (r: Path)
        ensures
            r.components@ == components@,
    {
        Path { components }
    }

    pub fn push_component(&mut self, c: PathComponent)
        ensures
            final(self).components@ == old(self).components@.push(c),
    {
        self.components.push(c);
    }

    pub fn len(&self) -> (r: usize)
        ensures
            r == self.components@.len(),
    {
        self.components.len()
    }

    /// Deep copy sharing no state with the original.
    pub fn duplicate(&self) -> (r: Path)
        ensures
            path_eq(&r, self),
    {
        let mut cs: Vec<PathComponent> = Vec::new();
        let mut i: usize = 0;
        while i < self.components.len()
            invariant
                i <= self.components@.len(),
                cs@ == self.components@.subrange(0, i as int),
            decreases self.components@.len() - i,
        {
            cs.push(self.components[i].duplicate());
            proof {
                assert(cs@ =~= self.components@.subrange(0, i + 1));
            }
            i = i + 1;
        }
        proof {
            assert(cs@ =~= self.components@);
        }
        Path { components: cs }
    }
}

} // verus!
