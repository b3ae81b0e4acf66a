//! The record type stored by the container, and its aggregated views.

use vstd::prelude::*;

verus! {

/// A plain record with named fields.  One structure-of-arrays container slot
/// holds one logical `Particle`, reconstructed on demand from the per-field
/// buffers.
#[derive(Debug)]
pub struct Particle {
    pub name: String,
    pub mass: u64,
    pub charge: i64,
}

impl PartialEq for Particle {
    /// Structural equality: every field compares equal (the name by its
    /// characters).
    fn eq(&self, other: &Particle) -> (r: bool) {
        self.name == other.name && self.mass == other.mass && self.charge == other.charge
    }
}

impl vstd::std_specs::cmp::PartialEqSpecImpl for Particle {
    open spec fn obeys_eq_spec() -> bool {
        true
    }

    open spec fn eq_spec(&self, other: &Particle) -> bool {
        &&& self.name@ == other.name@
        &&& self.mass == other.mass
        &&& self.charge == other.charge
    }
}

impl Eq for Particle {

}

/// An aggregated read-only view of one container slot: one shared reference
/// per field, representing a single logical element without physically
/// co-locating the fields in memory.
pub struct ParticleRef<'a> {
    pub name: &'a String,
    pub mass: &'a u64,
    pub charge: &'a i64,
}

impl<'a> ParticleRef<'a> {
    /// The referenced fields are exactly the fields of `p`.
    pub open spec fn agrees(self, p: Particle) -> bool {
        &&& *self.name == p.name
        &&& *self.mass == p.mass
        &&& *self.charge == p.charge
    }
}

/// An aggregated mutable view of one container slot: one mutable reference
/// per field, borrowing all fields of that slot simultaneously.
pub struct ParticleRefMut<'a> {
    pub name: &'a mut String,
    pub mass: &'a mut u64,
    pub charge: &'a mut i64,
}

} // verus!
