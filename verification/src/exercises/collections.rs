//! Joining and sorting sequences of values: concatenation is specified
//! element for element, and sorting is specified as an ordered permutation.

use vstd::prelude::*;
use vstd::relations::{sorted_by, total_ordering};
use vstd::multiset::Multiset;
use vstd::seq_lib::lemma_sorted_unique;

verus! {

/// The sequence is in non-decreasing order.
pub open spec fn sorted(s: Seq<i64>) -> bool {
    forall|i: int, j: int| 0 <= i <= j < s.len() ==> s[i] <= s[j]
}

/// Concatenates two slices into a fresh vector holding the elements of the
/// first followed by the elements of the second.
pub fn concat_slices(a: &[i64], b: &[i64]) -> (result: Vec<i64>)
    ensures
        result@ == a@ + b@,
{
    let mut out: Vec<i64> = Vec::new();
    let mut i: usize = 0;
    while i < a.len()
        invariant
            i <= a@.len(),
            out@ == a@.subrange(0, i as int),
        decreases a@.len() - i,
    {
        out.push(a[i]);
        proof {
            assert(out@ =~= a@.subrange(0, i as int + 1));
        }
        i = i + 1;
    }
    let mut j: usize = 0;
    while j < b.len()
        invariant
            j <= b@.len(),
            out@ == a@ + b@.subrange(0, j as int),
        decreases b@.len() - j,
    {
        out.push(b[j]);
        proof {
            assert(out@ =~= a@ + b@.subrange(0, j as int + 1));
        }
        j = j + 1;
    }
    proof {
        assert(out@ =~= a@ + b@);
    }
    out
}

/// Where `x` belongs in the sorted vector: every element before the
/// returned position is at most `x`, every element from it on is greater.
fn insertion_point(out: &Vec<i64>, x: i64) -> (k: usize)
    requires
        sorted(out@),
    ensures
        k <= out@.len(),
        forall|l: int| 0 <= l < k ==> out@[l] <= x,
        forall|l: int| k <= l < out@.len() ==> x < out@[l],
{
    let mut k: usize = 0;
    while k < out.len()
        invariant
            k <= out@.len(),
            sorted(out@),
            forall|l: int| 0 <= l < k ==> out@[l] <= x,
        decreases out@.len() - k,
    {
        if out[k] > x {
            return k;
        }
        k = k + 1;
    }
    k
}

/// Sorts the vector in place into non-decreasing order; the result holds
/// exactly the values the vector held before, as a multiset.
pub fn sort_in_place(v: &mut Vec<i64>)
    ensures
        sorted(final(v)@),
        final(v)@.to_multiset() == old(v)@.to_multiset(),
        final(v)@.len() == old(v)@.len(),
{
    let mut out: Vec<i64> = Vec::new();
    proof {
        assert(out@ =~= v@.subrange(0, 0));
    }
    let mut i: usize = 0;
    while i < v.len()
        invariant
            i <= v@.len(),
            sorted(out@),
            out@.to_multiset() == v@.subrange(0, i as int).to_multiset(),
            out@.len() == i,
        decreases v@.len() - i,
    {
        let x = v[i];
        let k = insertion_point(&out, x);
        let ghost pre = out@;
        out.insert(k, x);
        proof {
            vstd::seq_lib::to_multiset_insert(pre, k as int, x);
            vstd::seq_lib::to_multiset_build(v@.subrange(0, i as int), v@[i as int]);
            assert(v@.subrange(0, i as int + 1) =~= v@.subrange(0, i as int).push(v@[i as int]));
        }
        i = i + 1;
    }
    proof {
        assert(v@.subrange(0, v@.len() as int) =~= v@);
    }
    *v = out;
}

/// Arrays have a fixed, known length; sorting one through a vector leaves
/// an ordered permutation of its elements.
pub fn use_array() {
    let lazy_caterer: [u32; 6] = [1, 2, 4, 7, 11, 16];
    assert(lazy_caterer[3] == 7);
    let a: [i32; 2] = [9, 9];
    assert(a[1] == 9);
    let taxonomy = ["Animalia", "Arthropoda", "Insecta"];
    assert(taxonomy@.len() == 3);
    let mut chaos: Vec<i64> = vec![2, 5, 4, 1, 3];
    let ghost before = chaos@;
    sort_in_place(&mut chaos);
    assert(sorted(chaos@));
    proof {
        lemma_sorted_values_pinned(before, chaos@);
    }
    assert(chaos@ =~= seq![1i64, 2, 3, 4, 5]);
}

/// Sorting these five values can only produce the ordered sequence: a
/// sorted sequence is determined by its multiset of values.
proof fn lemma_sorted_values_pinned(before: Seq<i64>, after: Seq<i64>)
    requires
        before =~= seq![2i64, 5, 4, 1, 3],
        sorted(after),
        after.to_multiset() == before.to_multiset(),
    ensures
        after =~= seq![1i64, 2, 3, 4, 5],
{
    broadcast use vstd::multiset::group_multiset_axioms;

    let leq = |x: i64, y: i64| x <= y;
    let expected: Seq<i64> = seq![1i64, 2, 3, 4, 5];
    assert(sorted_by(after, leq)) by {
        assert forall|i: int, j: int| 0 <= i < j < after.len() implies #[trigger] leq(
            after[i],
            after[j],
        ) by {
            assert(after[i] <= after[j]);
        }
    }
    assert(sorted_by(expected, leq)) by {
        assert forall|i: int, j: int| 0 <= i < j < expected.len() implies #[trigger] leq(
            expected[i],
            expected[j],
        ) by {
            assert(expected[i] <= expected[j]);
        }
    }
    assert(total_ordering(leq)) by {
        assert forall|x: i64| #[trigger] leq(x, x) by {
            assert(x <= x);
        }
        assert forall|x: i64, y: i64| #[trigger] leq(x, y) && #[trigger] leq(y, x) implies x
            == y by {
        }
        assert forall|x: i64, y: i64, z: i64| #[trigger] leq(x, y) && #[trigger] leq(y, z)
            implies leq(x, z) by {
        }
        assert forall|x: i64, y: i64| #[trigger] leq(x, y) || #[trigger] leq(y, x) by {
            assert(x <= y || y <= x);
        }
    }
    assert(before.to_multiset() =~= expected.to_multiset()) by {
        let e: Seq<i64> = Seq::empty();
        assert(before =~= e.push(2).push(5).push(4).push(1).push(3));
        assert(expected =~= e.push(1).push(2).push(3).push(4).push(5));
        vstd::seq_lib::to_multiset_build(e, 2i64);
        vstd::seq_lib::to_multiset_build(e.push(2), 5i64);
        vstd::seq_lib::to_multiset_build(e.push(2).push(5), 4i64);
        vstd::seq_lib::to_multiset_build(e.push(2).push(5).push(4), 1i64);
        vstd::seq_lib::to_multiset_build(e.push(2).push(5).push(4).push(1), 3i64);
        vstd::seq_lib::to_multiset_build(e, 1i64);
        vstd::seq_lib::to_multiset_build(e.push(1), 2i64);
        vstd::seq_lib::to_multiset_build(e.push(1).push(2), 3i64);
        vstd::seq_lib::to_multiset_build(e.push(1).push(2).push(3), 4i64);
        vstd::seq_lib::to_multiset_build(e.push(1).push(2).push(3).push(4), 5i64);
        assert(e.to_multiset() =~= Multiset::<i64>::empty()) by {
            e.to_multiset_ensures();
            assert(e.to_multiset().len() == 0);
        }
    }
    lemma_sorted_unique(after, expected, leq);
}

/// Joining and sorting collections: concatenation chains the elements in
/// order, and sorting arranges them without adding or losing any.
pub fn use_collections() {
    let first = [1i64, 2];
    let second = [3i64, 4];
    let joined = concat_slices(first.as_slice(), second.as_slice());
    assert(joined@ =~= seq![1i64, 2, 3, 4]);
    let mut values: Vec<i64> = vec![3, 1, 2];
    sort_in_place(&mut values);
    assert(sorted(values@));
    assert(values@.len() == 3);
}

} // verus!
