//! The growable structure-of-arrays container: one buffer per field of
//! [`Particle`], one shared logical length.

use vstd::prelude::*;

use crate::particle::Particle;
use crate::particle::ParticleRef;
use crate::particle::ParticleRefMut;
use crate::slices::ParticleSlice;
use crate::slices::ParticleSliceMut;
use vstd::slice::slice_subrange;

verus! {

/// Relies on std's `Vec::capacity`: the number of elements the buffer can
/// hold without reallocating, which std documents to be at least the length.
#[verifier::external_body]
fn buffer_capacity<T>(v: &Vec<T>) -> (r: usize)
    ensures
        r >= v@.len(),
{
    v.capacity()
}

/// Relies on std's `Vec::reserve_exact`: grows the allocation only, leaving
/// the stored elements unchanged.
#[verifier::external_body]
fn buffer_reserve_exact<T>(v: &mut Vec<T>, additional: usize)
    ensures
        final(v)@ == old(v)@,
{
    v.reserve_exact(additional)
}

/// Relies on std's `Vec::shrink_to_fit`: releases unused capacity, leaving
/// the stored elements unchanged.
#[verifier::external_body]
fn buffer_shrink_to_fit<T>(v: &mut Vec<T>)
    ensures
        final(v)@ == old(v)@,
{
    v.shrink_to_fit()
}

/// Exchanges the elements at `i` and `j` inside one field buffer by routing
/// them through a scratch value, so that no slot is ever read twice or left
/// holding a duplicate.
fn vec_swap_with<T>(v: &mut Vec<T>, i: usize, j: usize, scratch: T)
    requires
        i < old(v)@.len(),
        j < old(v)@.len(),
        i != j,
    ensures
        final(v)@ == old(v)@.update(i as int, old(v)@[j as int]).update(
            j as int,
            old(v)@[i as int],
        ),
{
    let mut tmp = scratch;
    core::mem::swap(&mut tmp, &mut v[i]);
    core::mem::swap(&mut tmp, &mut v[j]);
    core::mem::swap(&mut tmp, &mut v[i]);
    proof {
        assert(v@ =~= old(v)@.update(i as int, old(v)@[j as int]).update(
            j as int,
            old(v)@[i as int],
        ));
    }
}

/// Borrows the sub-range `[start, end)` of one field buffer mutably, leaving
/// the parts around it untouched.
fn buffer_slice_mut<T>(v: &mut Vec<T>, start: usize, end: usize) -> (r: &mut [T])
    requires
        start <= end,
        end <= old(v)@.len(),
    ensures
        r@ == old(v)@.subrange(start as int, end as int),
        final(v)@ == old(v)@.subrange(0, start as int) + final(r)@ + old(v)@.subrange(
            end as int,
            old(v)@.len() as int,
        ),
{
    let (head, rest) = v.as_mut_slice().split_at_mut(end);
    let (lo, mid) = head.split_at_mut(start);
    proof {
        assert(has_resolved(lo));
        assert(has_resolved(rest));
    }
    mid
}

/// The subsequence of `s` at the positions `keep` marks true, in their
/// original order.
pub open spec fn keep_mask(s: Seq<Particle>, keep: Seq<bool>) -> Seq<Particle>
    recommends
        s.len() == keep.len(),
    decreases s.len(),
{
    if s.len() == 0 {
        Seq::empty()
    } else {
        let prefix = keep_mask(s.drop_last(), keep.drop_last());
        if keep.last() {
            prefix.push(s.last())
        } else {
            prefix
        }
    }
}

/// A predicate over aggregated field views may be called on the fields of `p`.
pub open spec fn accepts<F: Fn(&String, &u64, &i64) -> bool>(f: F, p: Particle) -> bool {
    call_requires(f, (&p.name, &p.mass, &p.charge))
}

/// Calling the predicate on the fields of `p` can return `b`.
pub open spec fn decides<F: Fn(&String, &u64, &i64) -> bool>(f: F, p: Particle, b: bool) -> bool {
    call_ensures(f, (&p.name, &p.mass, &p.charge), b)
}

/// When `keep` marks exactly the positions whose record satisfies `pred`,
/// masking by `keep` is the same as filtering by `pred`.
pub proof fn lemma_keep_mask_filter(
    s: Seq<Particle>,
    keep: Seq<bool>,
    pred: spec_fn(Particle) -> bool,
)
    requires
        s.len() == keep.len(),
        forall|i: int| 0 <= i < s.len() ==> keep[i] == pred(s[i]),
    ensures
        keep_mask(s, keep) == s.filter(pred),
    decreases s.len(),
{
    reveal(Seq::filter);
    if s.len() == 0 {
        assert(s =~= Seq::<Particle>::empty());
    } else {
        assert(keep.last() == pred(s.last()));
        lemma_keep_mask_filter(s.drop_last(), keep.drop_last(), pred);
    }
}

/// An analog of `Vec<Particle>` with structure-of-arrays layout: each field
/// of [`Particle`] lives in its own independently allocated buffer, and all
/// buffers hold the same number of initialized elements.
pub struct ParticleVec {
    name: Vec<String>,
    mass: Vec<u64>,
    charge: Vec<i64>,
}

impl View for ParticleVec {
    type V = Seq<Particle>;

    /// The container viewed as the sequence of the records it holds.
    closed spec fn view(&self) -> Seq<Particle> {
        Seq::new(
            self.name@.len(),
            |i: int|
                Particle {
                    name: self.name@[i],
                    mass: self.mass@[i],
                    charge: self.charge@[i],
                },
        )
    }
}

/// Record-wise equality of two container views: the same number of records,
/// each pair equal field by field (names by their characters).
pub open spec fn deep_eq(a: Seq<Particle>, b: Seq<Particle>) -> bool {
    &&& a.len() == b.len()
    &&& forall|i: int|
        0 <= i < a.len() ==> a[i].name@ == b[i].name@ && a[i].mass == b[i].mass && a[i].charge
            == b[i].charge
}

impl PartialEq for ParticleVec {
    /// Structural equality: every field buffer holds the same number of
    /// elements as its counterpart, equal slot by slot.
    fn eq(&self, other: &ParticleVec) -> (r: bool) {
        if self.name.len() != other.name.len() || self.mass.len() != other.mass.len()
            || self.charge.len() != other.charge.len() {
            return false;
        }
        let mut i: usize = 0;
        while i < self.name.len()
            invariant
                i <= self.name@.len(),
                self.name@.len() == other.name@.len(),
                forall|j: int| 0 <= j < i ==> self.name@[j]@ == other.name@[j]@,
            decreases self.name@.len() - i,
        {
            if !(self.name[i] == other.name[i]) {
                return false;
            }
            i = i + 1;
        }
        let mut i: usize = 0;
        while i < self.mass.len()
            invariant
                i <= self.mass@.len(),
                self.mass@.len() == other.mass@.len(),
                forall|j: int| 0 <= j < i ==> self.mass@[j] == other.mass@[j],
            decreases self.mass@.len() - i,
        {
            if self.mass[i] != other.mass[i] {
                return false;
            }
            i = i + 1;
        }
        let mut i: usize = 0;
        while i < self.charge.len()
            invariant
                i <= self.charge@.len(),
                self.charge@.len() == other.charge@.len(),
                forall|j: int| 0 <= j < i ==> self.charge@[j] == other.charge@[j],
            decreases self.charge@.len() - i,
        {
            if self.charge[i] != other.charge[i] {
                return false;
            }
            i = i + 1;
        }
        true
    }
}

impl vstd::std_specs::cmp::PartialEqSpecImpl for ParticleVec {
    open spec fn obeys_eq_spec() -> bool {
        true
    }

    closed spec fn eq_spec(&self, other: &ParticleVec) -> bool {
        &&& self.name@.len() == other.name@.len()
        &&& self.mass@.len() == other.mass@.len()
        &&& self.charge@.len() == other.charge@.len()
        &&& forall|i: int| 0 <= i < self.name@.len() ==> self.name@[i]@ == other.name@[i]@
        &&& forall|i: int| 0 <= i < self.mass@.len() ==> self.mass@[i] == other.mass@[i]
        &&& forall|i: int| 0 <= i < self.charge@.len() ==> self.charge@[i] == other.charge@[i]
    }
}

impl Eq for ParticleVec {

}

/// What `==` on two well-formed containers means: record-wise equality of
/// their views.
pub proof fn lemma_eq_is_deep_eq(a: &ParticleVec, b: &ParticleVec)
    requires
        a.wf(),
        b.wf(),
    ensures
        vstd::std_specs::cmp::PartialEqSpec::eq_spec(a, b) <==> deep_eq(a@, b@),
{
    if vstd::std_specs::cmp::PartialEqSpec::eq_spec(a, b) {
        assert forall|i: int| 0 <= i < a@.len() implies a@[i].name@ == b@[i].name@ && a@[i].mass
            == b@[i].mass && a@[i].charge == b@[i].charge by {
            assert(a.name@[i]@ == b.name@[i]@);
            assert(a.mass@[i] == b.mass@[i]);
            assert(a.charge@[i] == b.charge@[i]);
        }
    }
    if deep_eq(a@, b@) {
        assert forall|i: int| 0 <= i < a.name@.len() implies a.name@[i]@ == b.name@[i]@ by {
            assert(a@[i].name@ == b@[i].name@);
        }
        assert forall|i: int| 0 <= i < a.mass@.len() implies a.mass@[i] == b.mass@[i] by {
            assert(a@[i].mass == b@[i].mass);
        }
        assert forall|i: int| 0 <= i < a.charge@.len() implies a.charge@[i] == b.charge@[i] by {
            assert(a@[i].charge == b@[i].charge);
        }
    }
}

impl Clone for ParticleVec {
    /// Clones every field buffer; the copy holds exactly the same records.
    fn clone(&self) -> (res: ParticleVec)
        ensures
            res@ == self@,
            self.wf() ==> res.wf(),
    {
        let res = ParticleVec {
            name: self.name.clone(),
            mass: self.mass.clone(),
            charge: self.charge.clone(),
        };
        proof {
            assert forall|i: int| 0 <= i < self.name@.len() implies res.name@[i]
                == self.name@[i] by {
                assert(cloned::<String>(self.name@[i], res.name@[i]));
            }
            assert(res.name@ =~= self.name@);
            assert forall|i: int| 0 <= i < self.mass@.len() implies res.mass@[i]
                == self.mass@[i] by {
                assert(cloned::<u64>(self.mass@[i], res.mass@[i]));
            }
            assert(res.mass@ =~= self.mass@);
            assert forall|i: int| 0 <= i < self.charge@.len() implies res.charge@[i]
                == self.charge@[i] by {
                assert(cloned::<i64>(self.charge@[i], res.charge@[i]));
            }
            assert(res.charge@ =~= self.charge@);
            assert(res@ =~= self@);
        }
        res
    }
}

impl ParticleVec {
    /// Every field buffer holds the same number of elements: the container's
    /// single logical length.
    pub closed spec fn wf(&self) -> bool {
        &&& self.name@.len() == self.mass@.len()
        &&& self.name@.len() == self.charge@.len()
    }

    /// An empty container; no buffer is allocated yet.
    pub fn new() -> (r: ParticleVec)
        ensures
            r.wf(),
            r@ == Seq::<Particle>::empty(),
    {
        ParticleVec { name: Vec::new(), mass: Vec::new(), charge: Vec::new() }
    }

    /// The number of records held, identical across all field buffers.
    pub fn len(&self) -> (r: usize)
        requires
            self.wf(),
        ensures
            r == self@.len(),
    {
        self.name.len()
    }

    /// An empty container whose field buffers are each pre-allocated for at
    /// least `capacity` elements.
    pub fn with_capacity(capacity: usize) -> (r: ParticleVec)
        ensures
            r.wf(),
            r@ == Seq::<Particle>::empty(),
    {
        ParticleVec {
            name: Vec::with_capacity(capacity),
            mass: Vec::with_capacity(capacity),
            charge: Vec::with_capacity(capacity),
        }
    }

    /// True when the container holds no records.
    pub fn is_empty(&self) -> (r: bool)
        requires
            self.wf(),
        ensures
            r <==> self@.len() == 0,
    {
        self.name.is_empty()
    }

    /// The unified capacity: the minimum capacity across all field buffers,
    /// which never falls below the shared length.  (For a record with no
    /// fields this minimum would range over an empty set and be reported as
    /// the maximum representable value, since no allocation is ever needed;
    /// this container's record has a fixed, non-empty field list, so the
    /// degenerate case does not arise.)
    pub fn capacity(&self) -> (r: usize)
        requires
            self.wf(),
        ensures
            r >= self@.len(),
    {
        let a = buffer_capacity(&self.name);
        let b = buffer_capacity(&self.mass);
        let c = buffer_capacity(&self.charge);
        let mut r = a;
        if b < r {
            r = b;
        }
        if c < r {
            r = c;
        }
        r
    }

    /// Makes sure every field buffer can take at least `additional` more
    /// elements, with amortized growth; the stored records do not change.
    pub fn reserve(&mut self, additional: usize)
        requires
            old(self).wf(),
        ensures
            final(self).wf(),
            final(self)@ == old(self)@,
    {
        self.name.reserve(additional);
        self.mass.reserve(additional);
        self.charge.reserve(additional);
        proof {
            assert(self@ =~= old(self)@);
        }
    }

    /// Reserves exactly `additional` further slots in every field buffer,
    /// without over-allocation; the stored records do not change.
    pub fn reserve_exact(&mut self, additional: usize)
        requires
            old(self).wf(),
        ensures
            final(self).wf(),
            final(self)@ == old(self)@,
    {
        buffer_reserve_exact(&mut self.name, additional);
        buffer_reserve_exact(&mut self.mass, additional);
        buffer_reserve_exact(&mut self.charge, additional);
        proof {
            assert(self@ =~= old(self)@);
        }
    }

    /// Releases unused capacity in every field buffer; the stored records do
    /// not change.
    pub fn shrink_to_fit(&mut self)
        requires
            old(self).wf(),
        ensures
            final(self).wf(),
            final(self)@ == old(self)@,
    {
        buffer_shrink_to_fit(&mut self.name);
        buffer_shrink_to_fit(&mut self.mass);
        buffer_shrink_to_fit(&mut self.charge);
        proof {
            assert(self@ =~= old(self)@);
        }
    }

    /// Drops the records in slots `[len, length)` of every buffer and sets
    /// the shared length to `len`; a no-op when `len` is not below the
    /// current length.
    pub fn truncate(&mut self, len: usize)
        requires
            old(self).wf(),
        ensures
            final(self).wf(),
            len <= old(self)@.len() ==> final(self)@ == old(self)@.subrange(0, len as int),
            len > old(self)@.len() ==> final(self)@ == old(self)@,
    {
        self.name.truncate(len);
        self.mass.truncate(len);
        self.charge.truncate(len);
        proof {
            if len <= old(self)@.len() {
                assert(self@ =~= old(self)@.subrange(0, len as int));
            } else {
                assert(self@ =~= old(self)@);
            }
        }
    }

    /// Removes every record; equivalent to `truncate(0)`.
    pub fn clear(&mut self)
        requires
            old(self).wf(),
        ensures
            final(self).wf(),
            final(self)@ == Seq::<Particle>::empty(),
    {
        self.truncate(0);
        proof {
            assert(self@ =~= Seq::<Particle>::empty());
        }
    }

    /// Appends one record: each field value goes to the next free slot of its
    /// own buffer, and the shared length grows by one.
    pub fn push(&mut self, value: Particle)
        requires
            old(self).wf(),
        ensures
            final(self).wf(),
            final(self)@ == old(self)@.push(value),
    {
        let Particle { name, mass, charge } = value;
        self.name.push(name);
        self.mass.push(mass);
        self.charge.push(charge);
        proof {
            assert(self@ =~= old(self)@.push(value));
        }
    }

    /// Takes the last record out of every buffer and shrinks the shared
    /// length by one; `None` when the container is empty.
    pub fn pop(&mut self) -> (r: Option<Particle>)
        requires
            old(self).wf(),
        ensures
            final(self).wf(),
            old(self)@.len() > 0 ==> r == Some(old(self)@.last()) && final(self)@ == old(
                self,
            )@.drop_last(),
            old(self)@.len() == 0 ==> r == None::<Particle> && final(self)@ == old(self)@,
    {
        if self.name.len() == 0 {
            None
        } else {
            let name = self.name.pop().unwrap();
            let mass = self.mass.pop().unwrap();
            let charge = self.charge.pop().unwrap();
            proof {
                assert(self@ =~= old(self)@.drop_last());
            }
            Some(Particle { name, mass, charge })
        }
    }

    /// Splices one record in at `index`, shifting the tail of every buffer
    /// one slot to the right.
    pub fn insert(&mut self, index: usize, element: Particle)
        requires
            old(self).wf(),
            index <= old(self)@.len(),
        ensures
            final(self).wf(),
            final(self)@ == old(self)@.insert(index as int, element),
    {
        let Particle { name, mass, charge } = element;
        self.name.insert(index, name);
        self.mass.insert(index, mass);
        self.charge.insert(index, charge);
        proof {
            assert(self@ =~= old(self)@.insert(index as int, element));
        }
    }

    /// Takes the record at `index` out of every buffer, shifting the tails
    /// one slot to the left, and returns it.
    pub fn remove(&mut self, index: usize) -> (r: Particle)
        requires
            old(self).wf(),
            index < old(self)@.len(),
        ensures
            final(self).wf(),
            r == old(self)@[index as int],
            final(self)@ == old(self)@.remove(index as int),
    {
        let name = self.name.remove(index);
        let mass = self.mass.remove(index);
        let charge = self.charge.remove(index);
        proof {
            assert(self@ =~= old(self)@.remove(index as int));
        }
        Particle { name, mass, charge }
    }

    /// Returns the record at `index` after moving the last record into its
    /// place; constant time, but the order of the remaining records is not
    /// preserved.
    pub fn swap_remove(&mut self, index: usize) -> (r: Particle)
        requires
            old(self).wf(),
            index < old(self)@.len(),
        ensures
            final(self).wf(),
            r == old(self)@[index as int],
            final(self)@ == old(self)@.update(index as int, old(self)@.last()).drop_last(),
    {
        let name = self.name.swap_remove(index);
        let mass = self.mass.swap_remove(index);
        let charge = self.charge.swap_remove(index);
        proof {
            assert(self@ =~= old(self)@.update(index as int, old(self)@.last()).drop_last());
        }
        Particle { name, mass, charge }
    }

    /// An aggregated read-only view of the record at `index`, or `None` when
    /// `index` is out of range.
    pub fn get(&self, index: usize) -> (r: Option<ParticleRef<'_>>)
        requires
            self.wf(),
        ensures
            r is Some <==> index < self@.len(),
            r matches Some(pr) ==> pr.agrees(self@[index as int]),
    {
        if index < self.name.len() {
            Some(
                ParticleRef {
                    name: &self.name[index],
                    mass: &self.mass[index],
                    charge: &self.charge[index],
                },
            )
        } else {
            None
        }
    }

    /// An aggregated mutable view of the record at `index`: one mutable
    /// reference per field, borrowed from all buffers simultaneously, or
    /// `None` when `index` is out of range.
    pub fn get_mut(&mut self, index: usize) -> (r: Option<ParticleRefMut<'_>>)
        requires
            old(self).wf(),
        ensures
            final(self).wf(),
            r is Some <==> index < old(self)@.len(),
            r matches Some(pr) ==> *pr.name == old(self)@[index as int].name && *pr.mass == old(
                self,
            )@[index as int].mass && *pr.charge == old(self)@[index as int].charge && final(self)@
                =~= old(self)@.update(
                index as int,
                Particle { name: *final(pr.name), mass: *final(pr.mass), charge: *final(pr.charge) },
            ),
            r is None ==> final(self)@ =~= old(self)@,
    {
        if index < self.name.len() {
            Some(
                ParticleRefMut {
                    name: &mut self.name[index],
                    mass: &mut self.mass[index],
                    charge: &mut self.charge[index],
                },
            )
        } else {
            None
        }
    }

    /// Appends `n` copies of `value` (the last one moved, the others cloned)
    /// after reserving space; a no-op when `n == 0`.
    pub fn extend_with(&mut self, n: usize, value: Particle)
        requires
            old(self).wf(),
        ensures
            final(self).wf(),
            final(self)@ == old(self)@ + Seq::new(n as nat, |i: int| value),
    {
        if n == 0 {
            proof {
                assert(self@ =~= old(self)@ + Seq::new(0nat, |i: int| value));
            }
            return ;
        }
        self.reserve(n);
        let mut i: usize = 0;
        while i < n - 1
            invariant
                n >= 1,
                i <= n - 1,
                self.wf(),
                self@ =~= old(self)@ + Seq::new(i as nat, |j: int| value),
            decreases n - 1 - i,
        {
            let copy = Particle { name: value.name.clone(), mass: value.mass, charge: value.charge };
            assert(copy == value);
            self.push(copy);
            i = i + 1;
            proof {
                assert(self@ =~= old(self)@ + Seq::new(i as nat, |j: int| value));
            }
        }
        self.push(value);
        proof {
            assert(self@ =~= old(self)@ + Seq::new(n as nat, |j: int| value));
        }
    }

    /// Grows to `new_len` records by appending copies of `value`, or shrinks
    /// to `new_len` by truncation.
    pub fn resize(&mut self, new_len: usize, value: Particle)
        requires
            old(self).wf(),
        ensures
            final(self).wf(),
            new_len <= old(self)@.len() ==> final(self)@ == old(self)@.subrange(0, new_len as int),
            new_len > old(self)@.len() ==> final(self)@ == old(self)@ + Seq::new(
                (new_len - old(self)@.len()) as nat,
                |i: int| value,
            ),
    {
        let len = self.len();
        if new_len > len {
            self.extend_with(new_len - len, value);
        } else {
            self.truncate(new_len);
        }
    }

    /// A mutable aggregated view over the records in `[range.start,
    /// range.end)`; the range must lie inside `[0, length)`.  Writes through
    /// its slices land in that range of the container when the borrow ends.
    pub fn slice_mut(&mut self, range: core::ops::Range<usize>) -> (r: ParticleSliceMut<'_>)
        requires
            old(self).wf(),
            range.start <= range.end,
            range.end <= old(self)@.len(),
        ensures
            r.name@.len() == range.end - range.start,
            r.mass@.len() == range.end - range.start,
            r.charge@.len() == range.end - range.start,
            forall|i: int|
                0 <= i < range.end - range.start ==> r.name@[i] == old(self)@[range.start + i].name
                    && r.mass@[i] == old(self)@[range.start + i].mass && r.charge@[i] == old(
                    self,
                )@[range.start + i].charge,
            final(r.name)@.len() == range.end - range.start && final(r.mass)@.len() == range.end
                - range.start && final(r.charge)@.len() == range.end - range.start ==> {
                &&& final(self).wf()
                &&& final(self)@ =~= old(self)@.subrange(0, range.start as int) + Seq::new(
                    (range.end - range.start) as nat,
                    |i: int|
                        Particle {
                            name: final(r.name)@[i],
                            mass: final(r.mass)@[i],
                            charge: final(r.charge)@[i],
                        },
                ) + old(self)@.subrange(range.end as int, old(self)@.len() as int)
            },
    {
        let name_mid = buffer_slice_mut(&mut self.name, range.start, range.end);
        let mass_mid = buffer_slice_mut(&mut self.mass, range.start, range.end);
        let charge_mid = buffer_slice_mut(&mut self.charge, range.start, range.end);
        ParticleSliceMut { name: name_mid, mass: mass_mid, charge: charge_mid }
    }

    /// Keeps exactly the records the predicate approves: `f` sees each
    /// record's fields once, in index order; survivors are compacted leftward
    /// in a single pass (moved by in-place swap, never cloned) and keep their
    /// relative order, and the trailing deleted slots are truncated away.
    pub fn retain<F: Fn(&String, &u64, &i64) -> bool>(&mut self, f: F)
        requires
            old(self).wf(),
            forall|p: Particle| #[trigger] accepts(f, p),
        ensures
            final(self).wf(),
            exists|keep: Seq<bool>|
                #![auto]
                {
                    &&& keep.len() == old(self)@.len()
                    &&& final(self)@ == keep_mask(old(self)@, keep)
                    &&& forall|j: int| 0 <= j < keep.len() ==> decides(f, old(self)@[j], keep[j])
                },
            forall|pred: spec_fn(Particle) -> bool|
                (forall|p: Particle, b: bool| decides(f, p, b) ==> b == pred(p)) ==> final(self)@
                    == #[trigger] old(self)@.filter(pred),
    {
        let len = self.len();
        let mut i: usize = 0;
        let mut del: usize = 0;
        let ghost mut keep: Seq<bool> = Seq::<bool>::empty();
        while i < len
            invariant
                self.wf(),
                len == old(self)@.len(),
                self@.len() == len,
                i <= len,
                del <= i,
                keep.len() == i,
                forall|p: Particle| #[trigger] accepts(f, p),
                forall|j: int| 0 <= j < i ==> decides(f, old(self)@[j], keep[j]),
                self@.subrange(0, i as int - del as int) =~= keep_mask(
                    old(self)@.subrange(0, i as int),
                    keep,
                ),
                self@.subrange(i as int, len as int) =~= old(self)@.subrange(i as int, len as int),
            decreases len - i,
        {
            proof {
                assert(self@[i as int] == self@.subrange(i as int, len as int)[0]);
                assert(self@[i as int] == old(self)@[i as int]);
                assert(accepts(f, self@[i as int]));
            }
            let b = f(&self.name[i], &self.mass[i], &self.charge[i]);
            proof {
                assert(decides(f, old(self)@[i as int], b));
            }
            let ghost pre = self@;
            let ghost keep0 = keep;
            proof {
                keep = keep.push(b);
                assert(keep.drop_last() =~= keep0);
                assert(old(self)@.subrange(0, i + 1 as int).drop_last() =~= old(self)@.subrange(
                    0,
                    i as int,
                ));
                assert(old(self)@.subrange(0, i + 1 as int).last() == old(self)@[i as int]);
            }
            if !b {
                del = del + 1;
                proof {
                    assert(self@.subrange(0, i + 1 - del as int) =~= keep_mask(
                        old(self)@.subrange(0, i + 1 as int),
                        keep,
                    ));
                    assert forall|j: int| i as int + 1 <= j < len as int implies self@[j] == old(
                        self,
                    )@[j] by {
                        assert(self@[j] == self@.subrange(i as int, len as int)[j - i as int]);
                    }
                    assert(self@.subrange(i + 1 as int, len as int) =~= old(self)@.subrange(
                        i + 1 as int,
                        len as int,
                    ));
                }
            } else {
                if del > 0 {
                    let w = i - del;
                    vec_swap_with(&mut self.name, w, i, String::new());
                    vec_swap_with(&mut self.mass, w, i, 0u64);
                    vec_swap_with(&mut self.charge, w, i, 0i64);
                    proof {
                        assert(self@ =~= pre.update(w as int, pre[i as int]).update(
                            i as int,
                            pre[w as int],
                        ));
                        assert(self@.subrange(0, w as int) =~= pre.subrange(0, w as int));
                        assert(self@.subrange(0, w + 1 as int) =~= pre.subrange(0, w as int).push(
                            pre[i as int],
                        ));
                    }
                } else {
                    proof {
                        assert(self@.subrange(0, i + 1 as int) =~= self@.subrange(0, i as int).push(
                            pre[i as int],
                        ));
                    }
                }
                proof {
                    assert(self@.subrange(0, i + 1 - del as int) =~= keep_mask(
                        old(self)@.subrange(0, i + 1 as int),
                        keep,
                    ));
                    assert forall|j: int| i as int + 1 <= j < len as int implies self@[j] == old(
                        self,
                    )@[j] by {
                        assert(pre[j] == pre.subrange(i as int, len as int)[j - i as int]);
                        assert(self@[j] == pre[j]);
                    }
                    assert(self@.subrange(i + 1 as int, len as int) =~= old(self)@.subrange(
                        i + 1 as int,
                        len as int,
                    ));
                }
            }
            i = i + 1;
        }
        proof {
            assert(old(self)@.subrange(0, len as int) =~= old(self)@);
        }
        if del > 0 {
            self.truncate(len - del);
        } else {
            proof {
                assert(self@.subrange(0, len as int) =~= self@);
            }
        }
        proof {
            assert(self@ =~= keep_mask(old(self)@, keep));
            assert forall|pred: spec_fn(Particle) -> bool|
                (forall|p: Particle, b: bool|
                    decides(f, p, b) ==> b == pred(p)) implies self@ == #[trigger] old(
                self,
            )@.filter(pred) by {
                assert forall|j: int| 0 <= j < keep.len() implies #[trigger] keep[j] == pred(
                    old(self)@[j],
                ) by {
                    assert(decides(f, old(self)@[j], keep[j]));
                }
                lemma_keep_mask_filter(old(self)@, keep, pred);
            }
        }
    }

    /// A fixed-size aggregated view over exactly `[0, length)` of every field
    /// buffer.
    pub fn as_slice(&self) -> (r: ParticleSlice<'_>)
        requires
            self.wf(),
        ensures
            r.wf(),
            r@ == self@,
    {
        let r = ParticleSlice {
            name: self.name.as_slice(),
            mass: self.mass.as_slice(),
            charge: self.charge.as_slice(),
        };
        proof {
            assert(r@ =~= self@);
        }
        r
    }

    /// A mutable fixed-size aggregated view over exactly `[0, length)` of
    /// every field buffer: writes through its slices land in the container
    /// when the borrow ends.
    pub fn as_mut_slice(&mut self) -> (r: ParticleSliceMut<'_>)
        requires
            old(self).wf(),
        ensures
            r.name@.len() == old(self)@.len(),
            r.mass@.len() == old(self)@.len(),
            r.charge@.len() == old(self)@.len(),
            forall|i: int|
                0 <= i < old(self)@.len() ==> r.name@[i] == old(self)@[i].name && r.mass@[i] == old(
                    self,
                )@[i].mass && r.charge@[i] == old(self)@[i].charge,
            final(self)@ =~= Seq::new(
                final(r.name)@.len(),
                |i: int|
                    Particle {
                        name: final(r.name)@[i],
                        mass: final(r.mass)@[i],
                        charge: final(r.charge)@[i],
                    },
            ),
            final(r.name)@.len() == final(r.mass)@.len() && final(r.name)@.len()
                == final(r.charge)@.len() ==> final(self).wf(),
    {
        ParticleSliceMut {
            name: self.name.as_mut_slice(),
            mass: self.mass.as_mut_slice(),
            charge: self.charge.as_mut_slice(),
        }
    }

    /// An aggregated view over the records in `[range.start, range.end)`;
    /// the range must lie inside `[0, length)`.
    pub fn slice(&self, range: core::ops::Range<usize>) -> (r: ParticleSlice<'_>)
        requires
            self.wf(),
            range.start <= range.end,
            range.end <= self@.len(),
        ensures
            r.wf(),
            r@ == self@.subrange(range.start as int, range.end as int),
    {
        let r = ParticleSlice {
            name: slice_subrange(self.name.as_slice(), range.start, range.end),
            mass: slice_subrange(self.mass.as_slice(), range.start, range.end),
            charge: slice_subrange(self.charge.as_slice(), range.start, range.end),
        };
        proof {
            assert(r@ =~= self@.subrange(range.start as int, range.end as int));
        }
        r
    }

    /// Moves every record of `other` onto the end of `self`, leaving `other`
    /// empty.
    pub fn append(&mut self, other: &mut ParticleVec)
        requires
            old(self).wf(),
            old(other).wf(),
        ensures
            final(self).wf(),
            final(other).wf(),
            final(self)@ == old(self)@ + old(other)@,
            final(other)@ == Seq::<Particle>::empty(),
    {
        self.name.append(&mut other.name);
        self.mass.append(&mut other.mass);
        self.charge.append(&mut other.charge);
        proof {
            assert(self@ =~= old(self)@ + old(other)@);
            assert(other@ =~= Seq::<Particle>::empty());
        }
    }

    /// Splits the container at `at`: the records in `[at, length)` move into
    /// the returned container, and `self` keeps the records in `[0, at)`.
    pub fn split_off(&mut self, at: usize) -> (r: ParticleVec)
        requires
            old(self).wf(),
            at <= old(self)@.len(),
        ensures
            final(self).wf(),
            r.wf(),
            final(self)@ == old(self)@.subrange(0, at as int),
            r@ == old(self)@.subrange(at as int, old(self)@.len() as int),
    {
        let name = self.name.split_off(at);
        let mass = self.mass.split_off(at);
        let charge = self.charge.split_off(at);
        proof {
            assert(self@ =~= old(self)@.subrange(0, at as int));
        }
        let r = ParticleVec { name, mass, charge };
        proof {
            assert(r@ =~= old(self)@.subrange(at as int, old(self)@.len() as int));
        }
        r
    }
}

} // verus!
