//! Two small routines of the kind students hand in, kept as worked fixtures.

use vstd::prelude::*;

verus! {

/// The product `1 * 2 * ... * n`.
pub open spec fn factorial_of(n: nat) -> nat
    decreases n,
{
    if n == 0 {
        1
    } else {
        n * factorial_of((n - 1) as nat)
    }
}

/// The factorial never shrinks as its argument grows.
pub proof fn lemma_factorial_monotonic(i: nat, j: nat)
    requires
        i <= j,
    ensures
        1 <= factorial_of(i) <= factorial_of(j),
    decreases j,
{
    if j == 0 {
    } else if i == j {
        lemma_factorial_monotonic(0, (j - 1) as nat);
        assert(factorial_of(j) >= 1) by (nonlinear_arith)
            requires
                factorial_of(j) == j * factorial_of((j - 1) as nat),
                j >= 1,
                factorial_of((j - 1) as nat) >= 1,
        ;
    } else {
        lemma_factorial_monotonic(i, (j - 1) as nat);
        assert(factorial_of(j) >= factorial_of((j - 1) as nat)) by (nonlinear_arith)
            requires
                factorial_of(j) == j * factorial_of((j - 1) as nat),
                j >= 1,
                factorial_of((j - 1) as nat) >= 1,
        ;
    }
}

/// The factorial of `n`, or `None` when it does not fit in 64 bits.
pub fn factorial(n: u64) -> (r: Option<u64>)
    ensures
        factorial_of(n as nat) <= u64::MAX ==> r == Some(factorial_of(n as nat) as u64),
        factorial_of(n as nat) > u64::MAX ==> r is None,
{
    if n == 0 || n == 1 {
        assert(factorial_of(n as nat) == 1) by {
            reveal_with_fuel(factorial_of, 2);
        }
        return Some(1);
    }
    let mut result: u64 = 1;
    let mut i: u64 = 2;
    assert(factorial_of(1) == 1) by {
        reveal_with_fuel(factorial_of, 2);
    }
    while i <= n
        invariant
            2 <= i <= n,
            result == factorial_of((i - 1) as nat),
        decreases n - i,
    {
        assert(factorial_of(i as nat) == result * i) by (nonlinear_arith)
            requires
                factorial_of(i as nat) == i * factorial_of((i - 1) as nat),
                result == factorial_of((i - 1) as nat),
        ;
        match result.checked_mul(i) {
            Some(next) => {
                result = next;
            },
            None => {
                proof {
                    lemma_factorial_monotonic(i as nat, n as nat);
                }
                return None;
            },
        }
        if i == n {
            return Some(result);
        }
        i = i + 1;
    }
    Some(result)
}

/// Whether `m` is the largest element of `numbers`.
pub open spec fn is_max_of(numbers: Seq<i32>, m: i32) -> bool {
    &&& numbers.contains(m)
    &&& forall|i: int| 0 <= i < numbers.len() ==> numbers[i] <= m
}

/// The largest element of `numbers`, or `None` when there is none.
pub fn find_max(numbers: &[i32]) -> (r: Option<i32>)
    ensures
        numbers@.len() == 0 <==> r is None,
        r matches Some(m) ==> is_max_of(numbers@, m),
{
    if numbers.len() == 0 {
        return None;
    }
    let mut max: i32 = numbers[0];
    let mut i: usize = 1;
    while i < numbers.len()
        invariant
            1 <= i <= numbers@.len(),
            exists|k: int| 0 <= k < i && numbers@[k] == max,
            forall|j: int| 0 <= j < i ==> numbers@[j] <= max,
        decreases numbers@.len() - i,
    {
        let num: i32 = numbers[i];
        if num > max {
            max = num;
        }
        assert(numbers@[i as int] == num);
        i = i + 1;
    }
    Some(max)
}

} // verus!
