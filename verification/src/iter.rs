//! Forward traversal over a container: one aggregated read-only view per
//! element, in index order, bounded by the shared length.

use vstd::prelude::*;

use crate::particle::ParticleRef;
use crate::particle::Particle;
use crate::soa::ParticleVec;

verus! {

/// An iterator over a [`ParticleVec`].  Each call of [`ParticleIter::next`]
/// produces the aggregated view of one more element; after exhaustion it only
/// returns `None`, and a fresh iterator must be requested to traverse again.
pub struct ParticleIter<'a> {
    vec: &'a ParticleVec,
    n: usize,
}

impl<'a> ParticleIter<'a> {
    /// The sequence of records being traversed.
    pub closed spec fn elements(&self) -> Seq<Particle> {
        self.vec@
    }

    /// How many elements have been produced so far.
    pub closed spec fn pos(&self) -> int {
        self.n as int
    }

    /// The traversed container is well formed.
    pub closed spec fn wf(&self) -> bool {
        self.vec.wf()
    }

    /// The aggregated view of the next element, advancing the iterator; `None`
    /// once every element in `[0, length)` has been produced.
    pub fn next(&mut self) -> (r: Option<ParticleRef<'a>>)
        requires
            old(self).wf(),
        ensures
            final(self).wf(),
            final(self).elements() == old(self).elements(),
            old(self).pos() < old(self).elements().len() ==> {
                &&& r is Some
                &&& (r matches Some(pr) ==> pr.agrees(old(self).elements()[old(self).pos()]))
                &&& final(self).pos() == old(self).pos() + 1
            },
            old(self).pos() >= old(self).elements().len() ==> r is None && final(self).pos()
                == old(self).pos(),
    {
        let vec: &'a ParticleVec = self.vec;
        if self.n >= vec.len() {
            return None;
        }
        let item = vec.get(self.n);
        self.n = self.n + 1;
        item
    }

    /// Exactly how many elements are still to come: the shared length minus
    /// the elements already produced.
    pub fn size_hint(&self) -> (r: (usize, Option<usize>))
        requires
            self.wf(),
        ensures
            self.pos() >= self.elements().len() ==> r == (0usize, Some(0usize)),
            self.pos() < self.elements().len() ==> {
                &&& r.0 == self.elements().len() - self.pos()
                &&& r.1 == Some(r.0)
            },
    {
        let len = self.vec.len();
        if self.n >= len {
            return (0, Some(0));
        }
        let left = len - self.n;
        (left, Some(left))
    }
}

impl ParticleVec {
    /// A fresh forward iterator over all records in `[0, length)`.
    pub fn iter(&self) -> (r: ParticleIter<'_>)
        requires
            self.wf(),
        ensures
            r.wf(),
            r.elements() == self@,
            r.pos() == 0,
    {
        ParticleIter { vec: self, n: 0 }
    }
}

} // verus!
