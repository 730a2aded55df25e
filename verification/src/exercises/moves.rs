//! Moving owned values through control flow: each branch may consume the
//! same variable, since only one branch runs, and a value moved inside a
//! loop must be replaced before the next iteration.

use vstd::prelude::*;

verus! {

/// Takes ownership of the vector and hands the same vector back.
fn f(x: Vec<i32>) -> (result: Vec<i32>)
    ensures
        result == x,
{
    x
}

/// Takes ownership of the vector and hands the same vector back.
fn g(x: Vec<i32>) -> (result: Vec<i32>)
    ensures
        result == x,
{
    x
}

/// Either branch of the `if` consumes `x`, which is fine because exactly
/// one of them runs; inside the loop, the consumed vector is given a fresh
/// value before the next iteration can consume it again.
pub fn move_control_flow() {
    let mut x: Vec<i32> = vec![1, 2, 3];
    let c: bool = false;
    let moved = if c {
        f(x)
    } else {
        g(x)
    };
    assert(moved@ =~= seq![1, 2, 3]);
    x = vec![1, 2, 3];
    while c
        invariant
            !c,
            x@ =~= seq![1, 2, 3],
        decreases 0int,
    {
        f(x);
        x = vec![1, 1, 1];
    }
    assert(x@ =~= seq![1, 2, 3]);
}

} // verus!
