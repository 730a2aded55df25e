//! Hand-rolled iteration: accumulation, a peek-style digit parser, a fused
//! source that stops for good after its first exhaustion, and partitioning.

use vstd::prelude::*;
use core::cmp::Ordering;
use crate::exercises::references::lemma_factorial_monotonic;
use crate::exercises::references::spec_factorial;

verus! {

/// The sum of the integers from 1 through `n`.
pub open spec fn spec_triangle(n: nat) -> nat
    decreases n,
{
    if n == 0 {
        0
    } else {
        n + spec_triangle((n - 1) as nat)
    }
}

/// Triangle numbers grow monotonically.
pub proof fn lemma_triangle_monotonic(a: nat, b: nat)
    requires
        a <= b,
    ensures
        spec_triangle(a) <= spec_triangle(b),
    decreases b,
{
    if a < b {
        lemma_triangle_monotonic(a, (b - 1) as nat);
    }
}

/// The sum of the integers below `n` — the sum an exclusive range `1..n`
/// yields.
pub fn triangle(n: u64) -> (result: u64)
    requires
        n == 0 || spec_triangle((n - 1) as nat) <= u64::MAX,
    ensures
        result == if n == 0 {
            0
        } else {
            spec_triangle((n - 1) as nat)
        },
{
    if n == 0 {
        return 0;
    }
    let mut sum: u64 = 0;
    let mut i: u64 = 0;
    while i < n - 1
        invariant
            i <= n - 1,
            n >= 1,
            sum == spec_triangle(i as nat),
            spec_triangle((n - 1) as nat) <= u64::MAX,
        decreases n - 1 - i,
    {
        proof {
            lemma_triangle_monotonic((i + 1) as nat, (n - 1) as nat);
        }
        i = i + 1;
        sum = sum + i;
    }
    sum
}

/// The product of the integers below `n` — the product an exclusive range
/// `1..n` yields — where the empty product is one.
pub fn factorial(n: u64) -> (result: u64)
    requires
        n == 0 || spec_factorial((n - 1) as nat) <= u64::MAX,
    ensures
        result == if n == 0 {
            1
        } else {
            spec_factorial((n - 1) as nat)
        },
{
    if n == 0 {
        return 1;
    }
    let mut product: u64 = 1;
    let mut i: u64 = 0;
    while i < n - 1
        invariant
            i <= n - 1,
            n >= 1,
            product == spec_factorial(i as nat),
            spec_factorial((n - 1) as nat) <= u64::MAX,
        decreases n - 1 - i,
    {
        proof {
            lemma_factorial_monotonic((i + 1) as nat, (n - 1) as nat);
            assert(spec_factorial((i + 1) as nat) == ((i + 1) as nat)
                * spec_factorial(i as nat));
            let p = product as int;
            let q = (i + 1) as int;
            assert(p * q == q * p) by (nonlinear_arith);
        }
        i = i + 1;
        product = product * i;
    }
    product
}

/// The Fibonacci numbers: zero, one, and then the sum of the two before.
pub open spec fn spec_fib(n: nat) -> nat
    decreases n,
{
    if n == 0 {
        0
    } else if n == 1 {
        1
    } else {
        spec_fib((n - 1) as nat) + spec_fib((n - 2) as nat)
    }
}

/// Fibonacci numbers never shrink as the index grows.
pub proof fn lemma_fib_monotonic(a: nat, b: nat)
    requires
        a <= b,
    ensures
        spec_fib(a) <= spec_fib(b),
    decreases b,
{
    if a < b && b >= 2 {
        lemma_fib_monotonic(a, (b - 1) as nat);
    } else if a < b {
        assert(spec_fib(0) <= spec_fib(1));
    }
}

/// The `n`-th Fibonacci number.
pub fn fibonacci(n: u64) -> (result: u64)
    requires
        spec_fib((n + 1) as nat) <= u64::MAX,
    ensures
        result == spec_fib(n as nat),
{
    let mut a: u64 = 0;
    let mut b: u64 = 1;
    let mut i: u64 = 0;
    while i < n
        invariant
            i <= n,
            a == spec_fib(i as nat),
            b == spec_fib((i + 1) as nat),
            spec_fib((n + 1) as nat) <= u64::MAX,
        decreases n - i,
    {
        proof {
            lemma_fib_monotonic((i + 2) as nat, (n + 1) as nat);
        }
        let next: u64 = a + b;
        a = b;
        b = next;
        i = i + 1;
    }
    a
}

/// Compares two integers, never failing: integers, unlike floating-point
/// values, are totally ordered.
pub fn cmp(lhs: &i32, rhs: &i32) -> (result: Ordering)
    ensures
        result == Ordering::Less <==> *lhs < *rhs,
        result == Ordering::Equal <==> *lhs == *rhs,
        result == Ordering::Greater <==> *lhs > *rhs,
{
    if *lhs < *rhs {
        Ordering::Less
    } else if *lhs == *rhs {
        Ordering::Equal
    } else {
        Ordering::Greater
    }
}

/// A decimal digit.
pub open spec fn is_ascii_digit(c: char) -> bool {
    '0' <= c && c <= '9'
}

/// The numeric value of a decimal digit.
pub open spec fn digit_value(c: char) -> int {
    c as int - '0' as int
}

/// The index of the first non-digit at or after `from`, or the length of
/// the sequence when digits run to its end.
pub open spec fn digits_end(s: Seq<char>, from: int) -> int
    decreases s.len() - from,
    when 0 <= from <= s.len()
{
    if from >= s.len() {
        from
    } else if is_ascii_digit(s[from]) {
        digits_end(s, from + 1)
    } else {
        from
    }
}

/// The number the digits of `s` between `from` and `to` spell in decimal.
pub open spec fn decimal_value(s: Seq<char>, from: int, to: int) -> int
    decreases to - from,
    when from <= to
{
    if from >= to {
        0
    } else {
        decimal_value(s, from, to - 1) * 10 + digit_value(s[to - 1])
    }
}

/// Ten to the `k`-th power.
pub open spec fn pow10(k: nat) -> int
    decreases k,
{
    if k == 0 {
        1
    } else {
        10 * pow10((k - 1) as nat)
    }
}

/// A run of `k` digits spells a value below ten to the `k`-th.
pub proof fn lemma_decimal_value_bound(s: Seq<char>, from: int, to: int)
    requires
        0 <= from <= to <= s.len(),
        forall|l: int| from <= l < to ==> is_ascii_digit(#[trigger] s[l]),
    ensures
        0 <= decimal_value(s, from, to) < pow10((to - from) as nat),
    decreases to - from,
{
    if from < to {
        lemma_decimal_value_bound(s, from, to - 1);
    }
}

/// Everything between `from` and the first non-digit is a digit.
pub proof fn lemma_digits_end(s: Seq<char>, from: int)
    requires
        0 <= from <= s.len(),
    ensures
        from <= digits_end(s, from) <= s.len(),
        forall|l: int| from <= l < digits_end(s, from) ==> is_ascii_digit(#[trigger] s[l]),
        digits_end(s, from) < s.len() ==> !is_ascii_digit(s[digits_end(s, from)]),
    decreases s.len() - from,
{
    if from < s.len() && is_ascii_digit(s[from]) {
        lemma_digits_end(s, from + 1);
    }
}

/// Reads the run of decimal digits that starts at `start` and returns its
/// value together with the position of the first non-digit; a run of nine
/// digits at most is asked for, so the value fits the result type.
pub fn parse_number(tokens: &[char], start: usize) -> (result: (u32, usize))
    requires
        start <= tokens@.len(),
        digits_end(tokens@, start as int) - start <= 9,
    ensures
        result.1 == digits_end(tokens@, start as int),
        result.0 == decimal_value(tokens@, start as int, digits_end(tokens@, start as int)),
{
    proof {
        lemma_digits_end(tokens@, start as int);
    }
    let ghost stop = digits_end(tokens@, start as int);
    let mut n: u32 = 0;
    let mut pos: usize = start;
    while pos < tokens.len() && tokens[pos] >= '0' && tokens[pos] <= '9'
        invariant
            start <= pos <= tokens@.len(),
            stop == digits_end(tokens@, start as int),
            stop - start <= 9,
            pos <= stop,
            digits_end(tokens@, pos as int) == stop,
            n == decimal_value(tokens@, start as int, pos as int),
        decreases tokens@.len() - pos,
    {
        proof {
            lemma_digits_end(tokens@, start as int);
            assert(pos < stop);
            lemma_decimal_value_bound(tokens@, start as int, pos as int);
            assert(pow10((pos - start) as nat) <= pow10(8)) by {
                lemma_pow10_monotonic((pos - start) as nat, 8);
            }
            assert(pow10(8) == 100000000) by {
                reveal_with_fuel(pow10, 9);
            }
        }
        let d: u32 = tokens[pos] as u32 - '0' as u32;
        n = n * 10 + d;
        pos = pos + 1;
    }
    proof {
        assert(pos == stop);
    }
    (n, pos)
}

/// Ten to the power grows with the exponent.
pub proof fn lemma_pow10_monotonic(a: nat, b: nat)
    requires
        a <= b,
    ensures
        pow10(a) <= pow10(b),
    decreases b,
{
    if a < b {
        lemma_pow10_monotonic(a, (b - 1) as nat);
        assert(pow10((b - 1) as nat) >= 1) by {
            lemma_pow10_positive((b - 1) as nat);
        }
    }
}

/// Ten to any power is positive.
pub proof fn lemma_pow10_positive(k: nat)
    ensures
        pow10(k) >= 1,
    decreases k,
{
    if k > 0 {
        lemma_pow10_positive((k - 1) as nat);
    }
}

/// A source that alternates forever between yielding its one item and
/// yielding nothing: exhaustion is not final.
pub struct Flaky {
    pub primed: bool,
}

impl Flaky {
    /// Yields the item when primed, nothing otherwise, and flips either way.
    pub fn next(&mut self) -> (result: Option<&'static str>)
        ensures
            old(self).primed ==> (result matches Some(s) && s@ == "totaly the last item"@)
                && !final(self).primed,
            !old(self).primed ==> result is None && final(self).primed,
    {
        if self.primed {
            self.primed = false;
            Some("totaly the last item")
        } else {
            self.primed = true;
            None
        }
    }
}

/// A fuse around a [`Flaky`] source: after the wrapped source first runs
/// out, the fuse keeps yielding nothing, forever.
pub struct Fused {
    inner: Flaky,
    done: bool,
}

impl Fused {
    /// Whether the fuse has latched shut.
    pub closed spec fn spec_done(self) -> bool {
        self.done
    }

    /// Whether the wrapped source is primed to yield an item.
    pub closed spec fn spec_primed(self) -> bool {
        self.inner.primed
    }

    /// Wraps a source; the fuse starts open.
    pub fn new(inner: Flaky) -> (result: Fused)
        ensures
            !result.spec_done(),
            result.spec_primed() == inner.primed,
    {
        Fused { inner, done: false }
    }

    /// Yields what the source yields until the source first runs out; from
    /// then on yields nothing, whatever the source would do.
    pub fn next(&mut self) -> (result: Option<&'static str>)
        ensures
            old(self).spec_done() ==> result is None && final(self).spec_done(),
            !old(self).spec_done() && old(self).spec_primed() ==> (result matches Some(s) && s@
                == "totaly the last item"@) && !final(self).spec_done()
                && !final(self).spec_primed(),
            !old(self).spec_done() && !old(self).spec_primed() ==> result is None
                && final(self).spec_done(),
    {
        if self.done {
            return None;
        }
        let item = self.inner.next();
        if item.is_none() {
            self.done = true;
        }
        item
    }
}

/// The fuse at work: the bare source comes back to life after running out,
/// the fused one does not.
pub fn use_fuse() {
    let mut flaky = Flaky { primed: true };
    let first = flaky.next();
    assert(first matches Some(s) && s@ == "totaly the last item"@);
    let second = flaky.next();
    assert(second is None);
    let third = flaky.next();
    assert(third matches Some(s) && s@ == "totaly the last item"@);
    let mut not_flaky = Fused::new(Flaky { primed: true });
    let one = not_flaky.next();
    assert(one matches Some(s) && s@ == "totaly the last item"@);
    let two = not_flaky.next();
    assert(two is None);
    let three = not_flaky.next();
    assert(three is None);
    let four = not_flaky.next();
    assert(four is None);
}

/// The elements above the threshold, in order.
pub open spec fn above(threshold: i64) -> spec_fn(i64) -> bool {
    |x: i64| x > threshold
}

/// The elements at or below the threshold, in order.
pub open spec fn not_above(threshold: i64) -> spec_fn(i64) -> bool {
    |x: i64| !(x > threshold)
}

/// Splits the vector's elements by the threshold: the first part holds, in
/// order, exactly the elements above it, the second part all the others.
pub fn partition(v: &Vec<i64>, threshold: i64) -> (result: (Vec<i64>, Vec<i64>))
    ensures
        result.0@ == v@.filter(above(threshold)),
        result.1@ == v@.filter(not_above(threshold)),
{
    let mut big: Vec<i64> = Vec::new();
    let mut small: Vec<i64> = Vec::new();
    proof {
        assert(big@ =~= v@.subrange(0, 0).filter(above(threshold)));
        assert(small@ =~= v@.subrange(0, 0).filter(not_above(threshold)));
    }
    let mut i: usize = 0;
    while i < v.len()
        invariant
            i <= v@.len(),
            big@ == v@.subrange(0, i as int).filter(above(threshold)),
            small@ == v@.subrange(0, i as int).filter(not_above(threshold)),
        decreases v@.len() - i,
    {
        let x = v[i];
        proof {
            v@.subrange(0, i as int).lemma_filter_push(v@[i as int], above(threshold));
            v@.subrange(0, i as int).lemma_filter_push(v@[i as int], not_above(threshold));
            assert(v@.subrange(0, i as int + 1) =~= v@.subrange(0, i as int).push(v@[i as int]));
        }
        if x > threshold {
            big.push(x);
        } else {
            small.push(x);
        }
        i = i + 1;
    }
    proof {
        assert(v@.subrange(0, v@.len() as int) =~= v@);
    }
    (big, small)
}

/// Partitioning a handful of town populations by a threshold keeps each
/// population, in order, on the side where it belongs.
pub fn consume_iterators() {
    let populations: Vec<i64> = vec![583776i64, 553776, 449, 2, 7762, 15340];
    let split = partition(&populations, 500000);
    proof {
        reveal_with_fuel(Seq::<_>::filter, 8);
        assert(split.0@ =~= seq![583776i64, 553776]);
        assert(split.1@ =~= seq![449i64, 2, 7762, 15340]);
    }
}

/// The first `n` elements of the slice, or all of them when fewer.
pub fn take_values(v: &[i64], n: usize) -> (result: Vec<i64>)
    ensures
        result@ == v@.subrange(0, if n <= v@.len() { n as int } else { v@.len() as int }),
{
    let count = if n <= v.len() { n } else { v.len() };
    let mut out: Vec<i64> = Vec::new();
    let mut i: usize = 0;
    while i < count
        invariant
            i <= count <= v@.len(),
            out@ == v@.subrange(0, i as int),
        decreases count - i,
    {
        out.push(v[i]);
        proof {
            assert(out@ =~= v@.subrange(0, i as int + 1));
        }
        i = i + 1;
    }
    out
}

/// The elements of the slice in the opposite order.
pub fn reverse_values(v: &[i64]) -> (result: Vec<i64>)
    ensures
        result@.len() == v@.len(),
        forall|i: int| 0 <= i < v@.len() ==> result@[i] == v@[v@.len() - 1 - i],
{
    let mut out: Vec<i64> = Vec::new();
    let mut i: usize = v.len();
    while i > 0
        invariant
            i <= v@.len(),
            out@.len() == v@.len() - i,
            forall|j: int| 0 <= j < out@.len() ==> out@[j] == v@[v@.len() - 1 - j],
        decreases i,
    {
        i = i - 1;
        out.push(v[i]);
    }
    out
}

/// The adapters at work: taking keeps a prefix, reversing turns the order
/// around, and chaining joins two slices end to end.
pub fn use_adapters() {
    let values: [i64; 3] = [1, 2, 3];
    let first_two = take_values(values.as_slice(), 2);
    assert(first_two@ =~= seq![1i64, 2]);
    let reversed = reverse_values(values.as_slice());
    assert(reversed@ =~= seq![3i64, 2, 1]);
    let tail: [i64; 4] = [4, 5, 6, 7];
    let chained = crate::exercises::collections::concat_slices(values.as_slice(), tail.as_slice());
    assert(chained@ =~= seq![1i64, 2, 3, 4, 5, 6, 7]);
}

} // verus!
