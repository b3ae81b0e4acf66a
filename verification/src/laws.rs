//! Cross-operation laws of the container, stated over the sequence views that
//! the operations' contracts use and proved once for all inputs.

use vstd::prelude::*;

use crate::particle::Particle;

verus! {

/// Round-trip: pushing a record grows the view by one and puts the record in
/// the last slot, and dropping that slot (what `pop` returns to) restores the
/// view from before the push.
pub proof fn lemma_push_pop_round_trip(s: Seq<Particle>, p: Particle)
    ensures
        s.push(p).len() == s.len() + 1,
        s.push(p)[s.len() as int] == p,
        s.push(p).last() == p,
        s.push(p).drop_last() == s,
{
    assert(s.push(p).drop_last() =~= s);
}

/// Order preservation: inserting at `i` splices the record in, keeping every
/// earlier record at its index and shifting every later one up by one, and
/// removing at `i` is the exact inverse.
pub proof fn lemma_insert_remove_inverse(s: Seq<Particle>, i: int, p: Particle)
    requires
        0 <= i <= s.len(),
    ensures
        s.insert(i, p).len() == s.len() + 1,
        s.insert(i, p)[i] == p,
        forall|j: int| 0 <= j < i ==> s.insert(i, p)[j] == s[j],
        forall|j: int| i <= j < s.len() ==> s.insert(i, p)[j + 1] == s[j],
        s.insert(i, p).remove(i) == s,
{
    assert(s.insert(i, p).remove(i) =~= s);
}

/// `swap_remove` against `remove`: on the same view both take out the record
/// at `i` (each operation's own contract returns `s[i]`); `remove` shifts the
/// tail down and keeps the order, while `swap_remove` moves the formerly last
/// record into slot `i` and leaves every other survivor in place.
pub proof fn lemma_swap_remove_vs_remove(s: Seq<Particle>, i: int)
    requires
        0 <= i < s.len(),
    ensures
        s.update(i, s.last()).drop_last().len() == s.remove(i).len(),
        forall|j: int| 0 <= j < i ==> s.remove(i)[j] == s[j],
        forall|j: int| i <= j < s.len() - 1 ==> s.remove(i)[j] == s[j + 1],
        i < s.len() - 1 ==> s.update(i, s.last()).drop_last()[i] == s[s.len() - 1],
        forall|j: int|
            0 <= j < s.len() - 1 && j != i ==> s.update(i, s.last()).drop_last()[j] == s[j],
{
}

/// Every record of a filtered view satisfies the predicate.
pub proof fn lemma_filter_sound(s: Seq<Particle>, pred: spec_fn(Particle) -> bool)
    ensures
        forall|j: int| 0 <= j < s.filter(pred).len() ==> pred(#[trigger] s.filter(pred)[j]),
{
    assert forall|j: int| 0 <= j < s.filter(pred).len() implies pred(
        #[trigger] s.filter(pred)[j],
    ) by {
        s.lemma_filter_pred(pred, j);
    }
}

/// Filtering a view whose records all satisfy the predicate changes nothing.
pub proof fn lemma_filter_all_kept(s: Seq<Particle>, pred: spec_fn(Particle) -> bool)
    requires
        forall|j: int| 0 <= j < s.len() ==> pred(s[j]),
    ensures
        s.filter(pred) == s,
    decreases s.len(),
{
    reveal(Seq::filter);
    if s.len() == 0 {
        assert(s.filter(pred) =~= s);
    } else {
        lemma_filter_all_kept(s.drop_last(), pred);
        assert(s.drop_last().push(s.last()) =~= s);
    }
}

/// Retain idempotence: filtering an already filtered view by the same
/// predicate changes nothing, so retaining twice is the same as retaining
/// once.
pub proof fn lemma_filter_idempotent(s: Seq<Particle>, pred: spec_fn(Particle) -> bool)
    ensures
        s.filter(pred).filter(pred) == s.filter(pred),
{
    lemma_filter_sound(s, pred);
    lemma_filter_all_kept(s.filter(pred), pred);
}

/// Bulk extension against truncation: extending an empty view with `n` copies
/// of one record and then truncating to `m <= n` leaves exactly `m` copies of
/// that record.
pub proof fn lemma_extend_then_truncate(n: nat, m: nat, v: Particle)
    requires
        m <= n,
    ensures
        (Seq::<Particle>::empty() + Seq::new(n, |i: int| v)).subrange(0, m as int) == Seq::new(
            m,
            |i: int| v,
        ),
{
    assert((Seq::<Particle>::empty() + Seq::new(n, |i: int| v)).subrange(0, m as int) =~= Seq::new(
        m,
        |i: int| v,
    ));
}

/// Append/split inverse: appending `b` to `a` and splitting the result at
/// `a`'s old length gives back exactly `a` and `b`.
pub proof fn lemma_append_split_off_inverse(a: Seq<Particle>, b: Seq<Particle>)
    ensures
        (a + b).subrange(0, a.len() as int) == a,
        (a + b).subrange(a.len() as int, (a + b).len() as int) == b,
{
    assert((a + b).subrange(0, a.len() as int) =~= a);
    assert((a + b).subrange(a.len() as int, (a + b).len() as int) =~= b);
}

} // verus!
