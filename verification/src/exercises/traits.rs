//! Dot products over slices, specified by a recursive sum of products.

use vstd::prelude::*;

verus! {

/// The sum of the first `k` pairwise products of `a` and `b`.
pub open spec fn spec_dot(a: Seq<i64>, b: Seq<i64>, k: int) -> int
    decreases k,
{
    if k <= 0 {
        0
    } else {
        spec_dot(a, b, k - 1) + a[k - 1] * b[k - 1]
    }
}

/// The dot product of two slices, over the length of the first; every
/// partial sum and every single product must fit the result type.
pub fn dot(v1: &[i64], v2: &[i64]) -> (result: i64)
    requires
        v1@.len() <= v2@.len(),
        forall|k: int| 0 <= k <= v1@.len() ==> i64::MIN <= #[trigger] spec_dot(v1@, v2@, k) <= i64::MAX,
        forall|i: int| 0 <= i < v1@.len() ==> i64::MIN <= #[trigger] (v1@[i] * v2@[i]) <= i64::MAX,
    ensures
        result == spec_dot(v1@, v2@, v1@.len() as int),
{
    let mut total: i64 = 0;
    let mut i: usize = 0;
    while i < v1.len()
        invariant
            i <= v1@.len() <= v2@.len(),
            total == spec_dot(v1@, v2@, i as int),
            forall|k: int| 0 <= k <= v1@.len() ==> i64::MIN <= #[trigger] spec_dot(v1@, v2@, k) <= i64::MAX,
            forall|j: int| 0 <= j < v1@.len() ==> i64::MIN <= #[trigger] (v1@[j] * v2@[j]) <= i64::MAX,
        decreases v1@.len() - i,
    {
        proof {
            assert(spec_dot(v1@, v2@, i as int + 1) == spec_dot(v1@, v2@, i as int) + v1@[i as int]
                * v2@[i as int]);
        }
        total = total + v1[i] * v2[i];
        i = i + 1;
    }
    total
}

/// The dot product again; a generic element type would put the overflow
/// reasoning out of reach, so the arithmetic is fixed to 64-bit integers.
pub fn dot_g(v1: &[i64], v2: &[i64]) -> (result: i64)
    requires
        v1@.len() <= v2@.len(),
        forall|k: int| 0 <= k <= v1@.len() ==> i64::MIN <= #[trigger] spec_dot(v1@, v2@, k) <= i64::MAX,
        forall|i: int| 0 <= i < v1@.len() ==> i64::MIN <= #[trigger] (v1@[i] * v2@[i]) <= i64::MAX,
    ensures
        result == spec_dot(v1@, v2@, v1@.len() as int),
{
    dot(v1, v2)
}

/// A concrete dot product: pairing each of one, two, three and four with
/// one sums to ten.
pub fn use_dot_g() {
    let left: [i64; 4] = [1, 2, 3, 4];
    let right: [i64; 4] = [1, 1, 1, 1];
    proof {
        reveal_with_fuel(spec_dot, 5);
        assert(left@[0] == 1 && left@[1] == 2 && left@[2] == 3 && left@[3] == 4);
        assert(right@[0] == 1 && right@[1] == 1 && right@[2] == 1 && right@[3] == 1);
        assert(spec_dot(left@, right@, 0) == 0);
        assert(spec_dot(left@, right@, 1) == spec_dot(left@, right@, 0) + left@[0] * right@[0]);
        assert(spec_dot(left@, right@, 2) == spec_dot(left@, right@, 1) + left@[1] * right@[1]);
        assert(spec_dot(left@, right@, 3) == spec_dot(left@, right@, 2) + left@[2] * right@[2]);
        assert(spec_dot(left@, right@, 4) == spec_dot(left@, right@, 3) + left@[3] * right@[3]);
        assert(spec_dot(left@, right@, 4) == 10);
        assert forall|k: int| 0 <= k <= left@.len() implies i64::MIN <= #[trigger] spec_dot(
            left@,
            right@,
            k,
        ) <= i64::MAX by {
            assert(k == 0 || k == 1 || k == 2 || k == 3 || k == 4);
        }
        assert forall|i: int| 0 <= i < left@.len() implies i64::MIN <= #[trigger] (left@[i]
            * right@[i]) <= i64::MAX by {
            assert(i == 0 || i == 1 || i == 2 || i == 3);
        }
    }
    let result = dot_g(left.as_slice(), right.as_slice());
    assert(result == 10);
}

} // verus!
