//! The order of the HUD's list: by species, and within a species by age, oldest first.
//!
//! An entity's bits grow smaller as it gets younger (Bevy stores the row bit-inverted), so oldest
//! first is the larger bits first. The list does not jump about as creatures are born and starve,
//! and a newborn appears at the bottom of its species.
use vstd::prelude::*;
use crate::species::{lemma_index_identifies, Species};

verus! {

broadcast use {vstd::seq_lib::group_to_multiset_ensures, vstd::seq_lib::lemma_multiset_commutative};

/// Row `a` may stand above row `b`: an earlier species, or the same species and no younger.
pub open spec fn above(a: (Species, u64), b: (Species, u64)) -> bool {
    a.0.spec_index() < b.0.spec_index() || (a.0.spec_index() == b.0.spec_index() && a.1 >= b.1)
}

fn stands_above(a: (Species, u64), b: (Species, u64)) -> (r: bool)
    ensures
        r == above(a, b),
{
    let (ia, ib) = (a.0.index(), b.0.index());
    ia < ib || (ia == ib && a.1 >= b.1)
}

/// The positions `0..n`, in order.
pub open spec fn positions(n: nat) -> Seq<usize> {
    Seq::new(n, |i: int| i as usize)
}

/// What an order of the HUD's rows is: the positions of `rows`, each once, so that every row
/// stands above the rows after it.
pub open spec fn is_hud_order(rows: Seq<(Species, u64)>, r: Seq<usize>) -> bool {
    &&& r.to_multiset() == positions(rows.len()).to_multiset()
    &&& forall|i: int| 0 <= i < r.len() ==> r[i] < rows.len()
    &&& forall|i: int, j: int| 0 <= i < j < r.len() ==> above(rows[r[i] as int], rows[r[j] as int])
}

/// **The HUD's order** of `rows`.
pub fn hud_order(rows: &Vec<(Species, u64)>) -> (r: Vec<usize>)
    ensures
        is_hud_order(rows@, r@),
{
    let n = rows.len();
    let mut left: Vec<usize> = Vec::new();
    let mut k: usize = 0;
    while k < n
        invariant
            k <= n == rows@.len(),
            left@ == positions(k as nat),
        decreases n - k,
    {
        proof {
            assert(positions((k + 1) as nat) == positions(k as nat).push(k));
        }
        left.push(k);
        k = k + 1;
    }
    let mut order: Vec<usize> = Vec::new();
    while left.len() > 0
        invariant
            n == rows@.len(),
            order@.to_multiset().add(left@.to_multiset()) == positions(n as nat).to_multiset(),
            forall|i: int| 0 <= i < order@.len() ==> order@[i] < n,
            forall|i: int| 0 <= i < left@.len() ==> left@[i] < n,
            forall|i: int, j: int|
                0 <= i < j < order@.len() ==> above(rows@[order@[i] as int], rows@[order@[j] as int]),
            forall|i: int, j: int|
                0 <= i < order@.len() && 0 <= j < left@.len() ==> above(
                    rows@[order@[i] as int],
                    rows@[left@[j] as int],
                ),
        decreases left.len(),
    {
        // the row of `left` that stands above all the others
        let mut best: usize = 0;
        let mut m: usize = 1;
        while m < left.len()
            invariant
                n == rows@.len(),
                0 <= best < left@.len(),
                1 <= m <= left@.len(),
                forall|i: int| 0 <= i < left@.len() ==> left@[i] < n,
                forall|j: int| 0 <= j < m ==> above(rows@[left@[best as int] as int], rows@[left@[j] as int]),
            decreases left.len() - m,
        {
            if !stands_above(rows[left[best]], rows[left[m]]) {
                best = m;
            }
            m = m + 1;
        }
        let ghost before = left@;
        let chosen = left.remove(best);
        proof {
            assert(before.to_multiset() == left@.to_multiset().insert(chosen));
            assert(order@.push(chosen).to_multiset() == order@.to_multiset().insert(chosen));
            assert forall|j: int| 0 <= j < left@.len() implies above(
                rows@[chosen as int],
                rows@[left@[j] as int],
            ) by {
                if j < best {
                    assert(left@[j] == before[j]);
                } else {
                    assert(left@[j] == before[j + 1]);
                }
            }
            assert forall|i: int, j: int| 0 <= i < order@.len() && 0 <= j < left@.len() implies above(
                rows@[order@[i] as int],
                rows@[left@[j] as int],
            ) by {
                if j < best {
                    assert(left@[j] == before[j]);
                } else {
                    assert(left@[j] == before[j + 1]);
                }
            }
            assert forall|i: int| 0 <= i < order@.len() implies above(
                rows@[order@[i] as int],
                rows@[chosen as int],
            ) by {
                assert(chosen == before[best as int]);
            }
        }
        order.push(chosen);
        proof {
            assert(order@.to_multiset().add(left@.to_multiset()) =~= positions(n as nat).to_multiset());
        }
    }
    proof {
        assert(left@ =~= Seq::<usize>::empty());
        assert(order@.to_multiset() =~= positions(n as nat).to_multiset());
    }
    order
}

/// **A newborn appears at the bottom of its species**: a row younger than another of its species
/// (its bits are smaller) comes after it.
pub proof fn lemma_a_newborn_comes_last_of_its_species(
    rows: Seq<(Species, u64)>,
    r: Seq<usize>,
    older: int,
    newborn: int,
)
    requires
        is_hud_order(rows, r),
        0 <= older < r.len(),
        0 <= newborn < r.len(),
        rows[r[older] as int].0 == rows[r[newborn] as int].0,
        rows[r[newborn] as int].1 < rows[r[older] as int].1,
    ensures
        older < newborn,
{
    if newborn < older {
        assert(above(rows[r[newborn] as int], rows[r[older] as int]));
    }
}

/// **The list does not jump about as creatures are born and starve**: two rows that are in two
/// lists stand in the same order in both, whatever else came or went.
pub proof fn lemma_the_list_does_not_jump_about(
    rows1: Seq<(Species, u64)>,
    r1: Seq<usize>,
    rows2: Seq<(Species, u64)>,
    r2: Seq<usize>,
    a1: int,
    b1: int,
    a2: int,
    b2: int,
)
    requires
        is_hud_order(rows1, r1),
        is_hud_order(rows2, r2),
        0 <= a1 < b1 < r1.len(),
        0 <= a2 < r2.len(),
        0 <= b2 < r2.len(),
        rows1[r1[a1] as int] == rows2[r2[a2] as int],
        rows1[r1[b1] as int] == rows2[r2[b2] as int],
        rows1[r1[a1] as int] != rows1[r1[b1] as int],
    ensures
        a2 < b2,
{
    let x = rows1[r1[a1] as int];
    let y = rows1[r1[b1] as int];
    assert(above(x, y));
    if b2 < a2 {
        assert(above(y, x));
        lemma_index_identifies(x.0, y.0);
        assert(x == y);
    }
}

} // verus!
