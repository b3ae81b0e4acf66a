//! Fixed-size aggregated views over a contiguous range of container slots:
//! one shared slice per field, all of the same length.

use vstd::prelude::*;

use crate::particle::Particle;
use crate::particle::ParticleRef;

verus! {

/// A read-only structure-of-arrays slice: one borrowed slice per field of
/// [`Particle`], covering the same index range of every buffer.
pub struct ParticleSlice<'a> {
    pub name: &'a [String],
    pub mass: &'a [u64],
    pub charge: &'a [i64],
}

impl<'a> View for ParticleSlice<'a> {
    type V = Seq<Particle>;

    /// The slice viewed as the sequence of the records it covers.
    open spec fn view(&self) -> Seq<Particle> {
        Seq::new(
            self.name@.len(),
            |i: int|
                Particle {
                    name: self.name@[i],
                    mass: self.mass@[i],
                    charge: self.charge@[i],
                },
        )
    }
}

impl<'a> ParticleSlice<'a> {
    /// Every field slice covers the same number of elements.
    pub open spec fn wf(&self) -> bool {
        &&& self.name@.len() == self.mass@.len()
        &&& self.name@.len() == self.charge@.len()
    }

    /// The number of records covered, identical across all field slices.
    pub fn len(&self) -> (r: usize)
        requires
            self.wf(),
        ensures
            r == self@.len(),
    {
        self.name.len()
    }

    /// An aggregated read-only view of the record at `index`, or `None` when
    /// `index` is out of range.
    pub fn get(&self, index: usize) -> (r: Option<ParticleRef<'a>>)
        requires
            self.wf(),
        ensures
            r is Some <==> index < self@.len(),
            r matches Some(pr) ==> pr.agrees(self@[index as int]),
    {
        if index < self.name.len() {
            Some(
                ParticleRef {
                    name: &self.name[index],
                    mass: &self.mass[index],
                    charge: &self.charge[index],
                },
            )
        } else {
            None
        }
    }
}

/// A mutable structure-of-arrays slice: one mutable borrowed slice per field
/// of [`Particle`], covering the same index range of every buffer.  The
/// fields are plain mutable slices; writing through them must keep their
/// lengths (ordinary element assignment does), and the container the slices
/// were borrowed from sees every write once the borrow ends.
pub struct ParticleSliceMut<'a> {
    pub name: &'a mut [String],
    pub mass: &'a mut [u64],
    pub charge: &'a mut [i64],
}

} // verus!
