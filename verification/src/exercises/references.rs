//! Borrowed references: passing them, returning them out of slices, and
//! storing them in structs, with the facts each access relies on proved.

use vstd::prelude::*;

verus! {

/// `n` factorial, as a mathematical function.
pub open spec fn spec_factorial(n: nat) -> nat
    decreases n,
{
    if n == 0 {
        1
    } else {
        n * spec_factorial((n - 1) as nat)
    }
}

/// The factorial grows monotonically with its argument.
pub proof fn lemma_factorial_monotonic(a: nat, b: nat)
    requires
        a <= b,
    ensures
        spec_factorial(a) <= spec_factorial(b),
    decreases b,
{
    if a < b {
        lemma_factorial_monotonic(a, (b - 1) as nat);
        assert(spec_factorial((b - 1) as nat) <= b * spec_factorial((b - 1) as nat))
            by (nonlinear_arith)
            requires
                b >= 1,
        ;
    }
}

/// The product of the integers from 1 through `n`.
pub fn factorial(n: usize) -> (result: usize)
    requires
        spec_factorial(n as nat) <= usize::MAX,
    ensures
        result == spec_factorial(n as nat),
{
    let mut result: usize = 1;
    let mut i: usize = 0;
    while i < n
        invariant
            i <= n,
            result == spec_factorial(i as nat),
            spec_factorial(n as nat) <= usize::MAX,
        decreases n - i,
    {
        proof {
            lemma_factorial_monotonic((i + 1) as nat, n as nat);
            assert(spec_factorial((i + 1) as nat) == ((i + 1) as nat) * spec_factorial(i as nat));
        }
        i = i + 1;
        result = result * i;
    }
    result
}

/// Adds one to the integer behind the reference.
pub fn g(p: &i32) -> (result: i32)
    requires
        *p < i32::MAX,
    ensures
        result == *p + 1,
{
    *p + 1
}

/// Returns a reference to a smallest element of the slice: the result
/// points into the slice and no element is smaller than it.
pub fn smallest(v: &[i32]) -> (m: &i32)
    requires
        v@.len() >= 1,
    ensures
        exists|k: int| 0 <= k < v@.len() && *m == v@[k],
        forall|k: int| 0 <= k < v@.len() ==> *m <= v@[k],
{
    let mut best: &i32 = &v[0];
    let mut i: usize = 1;
    while i < v.len()
        invariant
            1 <= i <= v@.len(),
            exists|k: int| 0 <= k < i && *best == v@[k],
            forall|k: int| 0 <= k < i ==> *best <= v@[k],
        decreases v@.len() - i,
    {
        if v[i] < *best {
            best = &v[i];
        }
        i = i + 1;
    }
    best
}

/// A reference returned by a function lives as long as the slice it points
/// into; here the smallest element of the parabola's samples is its vertex.
pub fn return_ref() {
    let parabola = [9i32, 4, 1, 0, 1, 4, 9];
    let s = smallest(parabola.as_slice());
    assert(parabola@[3] == 0);
    assert(*s >= 0);
    assert(*s == 0);
}

/// A struct holding a reference; the lifetime parameter ties the struct to
/// the borrow it contains.
struct IntRef<'a> {
    r: &'a i32,
}

/// A reference stored in a struct field reads back the borrowed value.
pub fn struct_containing_ref() {
    let x: i32 = 10;
    let s = IntRef { r: &x };
    assert(*s.r == 10);
}

/// A reference to an expression borrows a temporary holding its value.
pub fn ref_to_expr() {
    proof {
        assert(spec_factorial(6) == 720) by {
            reveal_with_fuel(spec_factorial, 7);
        }
    }
    let r = &factorial(6);
    let total: usize = *r + 1009;
    assert(total == 1729);
    let x: i32 = 1000;
    let rx = &x;
    let rrx = &rx;
    let y: i32 = *rx + 1;
    assert(y == 1001);
    let z: i32 = **rrx + 1;
    assert(z == 1001);
}

struct Point {
    x: i32,
    y: i32,
}

/// References to references: field access sees through any number of
/// references, and comparison compares the values pointed at.
pub fn ref_to_ref() {
    let point = Point { x: 1, y: 2 };
    let r = &point;
    let rr = &r;
    let rrr = &rr;
    let through = rrr.y;
    assert(through == 2);
    let manual = (***rrr).y;
    assert(manual == 2);
    let x: i32 = 10;
    let y: i32 = 10;
    let rx = &x;
    let ry = &y;
    assert(rx == ry);
    let equal = *rx == *ry;
    assert(equal);
}

} // verus!
