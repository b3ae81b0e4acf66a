use soa_vec::particle::Particle;
use soa_vec::soa::ParticleVec;

fn p(name: &str, mass: u64, charge: i64) -> Particle {
    Particle { name: name.to_string(), mass, charge }
}

fn masses(v: &ParticleVec) -> Vec<u64> {
    let mut out = Vec::new();
    let mut i = 0;
    while i < v.len() {
        out.push(*v.get(i).unwrap().mass);
        i += 1;
    }
    out
}

#[test]
fn new_is_empty() {
    let v = ParticleVec::new();
    assert_eq!(v.len(), 0);
    assert!(v.is_empty());
}

#[test]
fn with_capacity_is_empty_and_large_enough() {
    let v = ParticleVec::with_capacity(10);
    assert_eq!(v.len(), 0);
    assert!(v.capacity() >= 10);
}

#[test]
fn length_capacity_invariant_along_operations() {
    let mut v = ParticleVec::new();
    assert!(v.len() <= v.capacity());
    v.push(p("a", 1, -1));
    v.push(p("b", 2, -2));
    assert!(v.len() <= v.capacity());
    v.reserve(100);
    assert!(v.len() <= v.capacity());
    v.insert(1, p("c", 3, -3));
    assert!(v.len() <= v.capacity());
    v.shrink_to_fit();
    assert!(v.len() <= v.capacity());
    v.truncate(1);
    assert!(v.len() <= v.capacity());
}

#[test]
fn push_get_round_trip() {
    let mut v = ParticleVec::new();
    v.push(p("muon", 105, -1));
    let r = v.get(v.len() - 1).unwrap();
    assert_eq!(r.name.as_str(), "muon");
    assert_eq!(*r.mass, 105);
    assert_eq!(*r.charge, -1);
}

#[test]
fn push_pop_round_trip() {
    let mut v = ParticleVec::new();
    v.push(p("e", 1, -1));
    let before = v.len();
    v.push(p("tau", 1777, -1));
    let back = v.pop().unwrap();
    assert_eq!(back.name, "tau");
    assert_eq!(back.mass, 1777);
    assert_eq!(back.charge, -1);
    assert_eq!(v.len(), before);
}

#[test]
fn pop_empty_is_none() {
    let mut v = ParticleVec::new();
    assert!(v.pop().is_none());
}

#[test]
fn get_out_of_range_is_none() {
    let mut v = ParticleVec::new();
    v.push(p("a", 1, 0));
    assert!(v.get(1).is_none());
    assert!(v.get(7).is_none());
}

#[test]
fn insert_preserves_order() {
    let mut v = ParticleVec::new();
    v.push(p("a", 1, 0));
    v.push(p("b", 2, 0));
    v.push(p("c", 3, 0));
    v.insert(1, p("x", 9, 0));
    assert_eq!(masses(&v), vec![1, 9, 2, 3]);
    let removed = v.remove(1);
    assert_eq!(removed.mass, 9);
    assert_eq!(masses(&v), vec![1, 2, 3]);
}

#[test]
fn insert_at_both_ends() {
    let mut v = ParticleVec::new();
    v.push(p("m", 2, 0));
    v.insert(0, p("front", 1, 0));
    v.insert(2, p("back", 3, 0));
    assert_eq!(masses(&v), vec![1, 2, 3]);
    assert_eq!(v.get(0).unwrap().name.as_str(), "front");
    assert_eq!(v.get(2).unwrap().name.as_str(), "back");
}

#[test]
fn swap_remove_returns_same_record_as_remove() {
    let mk = || {
        let mut v = ParticleVec::new();
        v.push(p("a", 1, 10));
        v.push(p("b", 2, 20));
        v.push(p("c", 3, 30));
        v.push(p("d", 4, 40));
        v
    };
    let mut v1 = mk();
    let mut v2 = mk();
    let by_remove = v1.remove(1);
    let by_swap = v2.swap_remove(1);
    assert_eq!(by_remove.name, by_swap.name);
    assert_eq!(by_remove.mass, by_swap.mass);
    assert_eq!(by_remove.charge, by_swap.charge);
    // remove keeps the order, swap_remove moves the last record to slot 1
    assert_eq!(masses(&v1), vec![1, 3, 4]);
    assert_eq!(masses(&v2), vec![1, 4, 3]);
    assert_eq!(v2.get(1).unwrap().name.as_str(), "d");
}

#[test]
fn truncate_drops_tail_only() {
    let mut v = ParticleVec::new();
    v.push(p("a", 1, 0));
    v.push(p("b", 2, 0));
    v.push(p("c", 3, 0));
    v.truncate(1);
    assert_eq!(masses(&v), vec![1]);
    assert_eq!(v.get(0).unwrap().name.as_str(), "a");
}

#[test]
fn truncate_beyond_length_is_noop() {
    let mut v = ParticleVec::new();
    v.push(p("a", 1, 0));
    v.truncate(5);
    assert_eq!(masses(&v), vec![1]);
}

#[test]
fn clear_empties() {
    let mut v = ParticleVec::new();
    v.push(p("a", 1, 0));
    v.push(p("b", 2, 0));
    v.clear();
    assert_eq!(v.len(), 0);
    assert!(v.is_empty());
}

#[test]
fn extend_with_then_truncate() {
    let mut v = ParticleVec::new();
    v.extend_with(3, p("w", 80, 1));
    assert_eq!(v.len(), 3);
    v.truncate(1);
    assert_eq!(v.len(), 1);
    let r = v.get(0).unwrap();
    assert_eq!(r.name.as_str(), "w");
    assert_eq!(*r.mass, 80);
    assert_eq!(*r.charge, 1);
}

#[test]
fn extend_with_zero_is_noop() {
    let mut v = ParticleVec::new();
    v.push(p("a", 1, 0));
    v.extend_with(0, p("w", 80, 1));
    assert_eq!(masses(&v), vec![1]);
}

#[test]
fn resize_grows_and_shrinks() {
    let mut v = ParticleVec::new();
    v.push(p("a", 1, 0));
    v.resize(4, p("fill", 7, 0));
    assert_eq!(masses(&v), vec![1, 7, 7, 7]);
    v.resize(2, p("unused", 9, 0));
    assert_eq!(masses(&v), vec![1, 7]);
}

#[test]
fn retain_keeps_even_tags_in_order() {
    let mut v = ParticleVec::new();
    for (i, m) in [1u64, 2, 3, 4, 5].iter().enumerate() {
        v.push(p(&format!("t{}", i), *m, 0));
    }
    v.retain(|_n: &String, m: &u64, _c: &i64| *m % 2 == 0);
    assert_eq!(masses(&v), vec![2, 4]);
    assert_eq!(v.len(), 2);
    // applying the same retention again changes nothing
    v.retain(|_n: &String, m: &u64, _c: &i64| *m % 2 == 0);
    assert_eq!(masses(&v), vec![2, 4]);
}

#[test]
fn retain_all_and_none() {
    let mut v = ParticleVec::new();
    v.push(p("a", 1, 0));
    v.push(p("b", 2, 0));
    v.retain(|_n: &String, _m: &u64, _c: &i64| true);
    assert_eq!(masses(&v), vec![1, 2]);
    v.retain(|_n: &String, _m: &u64, _c: &i64| false);
    assert_eq!(v.len(), 0);
}

#[test]
fn append_then_split_off_reconstructs() {
    let mut a = ParticleVec::new();
    a.push(p("a0", 1, 0));
    a.push(p("a1", 2, 0));
    let mut b = ParticleVec::new();
    b.push(p("b0", 10, 0));
    b.push(p("b1", 20, 0));
    b.push(p("b2", 30, 0));
    a.append(&mut b);
    assert_eq!(b.len(), 0);
    assert_eq!(masses(&a), vec![1, 2, 10, 20, 30]);
    let tail = a.split_off(2);
    assert_eq!(masses(&a), vec![1, 2]);
    assert_eq!(masses(&tail), vec![10, 20, 30]);
    assert_eq!(tail.get(0).unwrap().name.as_str(), "b0");
}

#[test]
fn split_off_at_ends() {
    let mut v = ParticleVec::new();
    v.push(p("a", 1, 0));
    v.push(p("b", 2, 0));
    let all = v.split_off(0);
    assert_eq!(v.len(), 0);
    assert_eq!(masses(&all), vec![1, 2]);
    let mut w = all;
    let none = w.split_off(2);
    assert_eq!(none.len(), 0);
    assert_eq!(masses(&w), vec![1, 2]);
}

#[test]
fn get_mut_updates_one_slot() {
    let mut v = ParticleVec::new();
    v.push(p("a", 1, 1));
    v.push(p("b", 2, 2));
    {
        let r = v.get_mut(1).unwrap();
        *r.name = "beta".to_string();
        *r.mass = 200;
        *r.charge = -2;
    }
    let r = v.get(1).unwrap();
    assert_eq!(r.name.as_str(), "beta");
    assert_eq!(*r.mass, 200);
    assert_eq!(*r.charge, -2);
    let r0 = v.get(0).unwrap();
    assert_eq!(r0.name.as_str(), "a");
}

#[test]
fn get_mut_out_of_range_is_none() {
    let mut v = ParticleVec::new();
    assert!(v.get_mut(0).is_none());
}

#[test]
fn as_slice_covers_all_records() {
    let mut v = ParticleVec::new();
    v.push(p("a", 1, 0));
    v.push(p("b", 2, 0));
    let s = v.as_slice();
    assert_eq!(s.len(), 2);
    let r = s.get(1).unwrap();
    assert_eq!(r.name.as_str(), "b");
    assert_eq!(*r.mass, 2);
    assert!(s.get(2).is_none());
}

#[test]
fn slice_covers_subrange() {
    let mut v = ParticleVec::new();
    v.push(p("a", 1, 0));
    v.push(p("b", 2, 0));
    v.push(p("c", 3, 0));
    let s = v.slice(1..3);
    assert_eq!(s.len(), 2);
    assert_eq!(s.get(0).unwrap().name.as_str(), "b");
    assert_eq!(s.get(1).unwrap().name.as_str(), "c");
}

#[test]
fn as_mut_slice_writes_land_in_container() {
    let mut v = ParticleVec::new();
    v.push(p("a", 1, 1));
    v.push(p("b", 2, 2));
    {
        let s = v.as_mut_slice();
        s.mass[0] = 100;
        s.charge[1] = -5;
    }
    assert_eq!(masses(&v), vec![100, 2]);
    assert_eq!(*v.get(1).unwrap().charge, -5);
}

#[test]
fn slice_mut_writes_land_in_subrange() {
    let mut v = ParticleVec::new();
    v.push(p("a", 1, 1));
    v.push(p("b", 2, 2));
    v.push(p("c", 3, 3));
    {
        let s = v.slice_mut(1..3);
        assert_eq!(s.name.len(), 2);
        s.mass[0] = 20;
        s.name[1] = "gamma".to_string();
    }
    assert_eq!(masses(&v), vec![1, 20, 3]);
    assert_eq!(v.get(2).unwrap().name.as_str(), "gamma");
    assert_eq!(v.get(0).unwrap().name.as_str(), "a");
}

#[test]
fn iter_produces_all_in_order_then_stops() {
    let mut v = ParticleVec::new();
    v.push(p("a", 1, 0));
    v.push(p("b", 2, 0));
    v.push(p("c", 3, 0));
    let mut it = v.iter();
    assert_eq!(it.size_hint(), (3, Some(3)));
    assert_eq!(*it.next().unwrap().mass, 1);
    assert_eq!(it.size_hint(), (2, Some(2)));
    assert_eq!(*it.next().unwrap().mass, 2);
    assert_eq!(*it.next().unwrap().mass, 3);
    assert_eq!(it.size_hint(), (0, Some(0)));
    assert!(it.next().is_none());
    // not restartable once exhausted
    assert!(it.next().is_none());
}

#[test]
fn clone_copies_records_independently() {
    let mut v = ParticleVec::new();
    v.push(p("a", 1, -1));
    v.push(p("b", 2, -2));
    let copy = v.clone();
    assert_eq!(masses(&copy), vec![1, 2]);
    assert_eq!(copy.get(0).unwrap().name.as_str(), "a");
    if let Some(r) = v.get_mut(0) {
        *r.mass = 99;
    }
    assert_eq!(masses(&v), vec![99, 2]);
    assert_eq!(masses(&copy), vec![1, 2]);
}

#[test]
fn reserve_exact_and_shrink_keep_contents() {
    let mut v = ParticleVec::new();
    v.push(p("a", 1, 0));
    v.push(p("b", 2, 0));
    v.reserve_exact(50);
    assert!(v.capacity() >= 52);
    assert_eq!(masses(&v), vec![1, 2]);
    assert_eq!(v.get(0).unwrap().name.as_str(), "a");
    v.shrink_to_fit();
    assert_eq!(masses(&v), vec![1, 2]);
    assert_eq!(v.get(1).unwrap().name.as_str(), "b");
    assert!(v.capacity() >= v.len());
}

#[test]
fn swap_remove_last_slot() {
    let mut v = ParticleVec::new();
    v.push(p("a", 1, 0));
    v.push(p("b", 2, 0));
    let r = v.swap_remove(1);
    assert_eq!(r.mass, 2);
    assert_eq!(masses(&v), vec![1]);
}

#[test]
fn remove_first_slot() {
    let mut v = ParticleVec::new();
    v.push(p("a", 1, 0));
    v.push(p("b", 2, 0));
    let r = v.remove(0);
    assert_eq!(r.name, "a");
    assert_eq!(masses(&v), vec![2]);
}

#[test]
fn iter_on_empty_container() {
    let v = ParticleVec::new();
    let mut it = v.iter();
    assert_eq!(it.size_hint(), (0, Some(0)));
    assert!(it.next().is_none());
}

#[test]
fn record_structural_equality() {
    assert_eq!(p("a", 1, -1), p("a", 1, -1));
    assert_ne!(p("a", 1, -1), p("b", 1, -1));
    assert_ne!(p("a", 1, -1), p("a", 2, -1));
    assert_ne!(p("a", 1, -1), p("a", 1, 1));
}

#[test]
fn container_structural_equality() {
    let mut v = ParticleVec::new();
    v.push(p("a", 1, -1));
    v.push(p("b", 2, -2));
    let w = v.clone();
    assert!(v == w);
    let mut shorter = v.clone();
    shorter.pop();
    assert!(v != shorter);
    let mut changed = v.clone();
    if let Some(r) = changed.get_mut(0) {
        *r.mass = 9;
    }
    assert!(v != changed);
    assert!(ParticleVec::new() == ParticleVec::new());
}

#[test]
fn capacity_grows_with_reserve() {
    let mut v = ParticleVec::new();
    v.push(p("a", 1, 0));
    v.reserve(100);
    assert!(v.capacity() >= 101);
}
