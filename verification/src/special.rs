//! Integer special functions used by the normalisation constants.

use crate::error::SamplerError;
use vstd::prelude::*;

verus! {

/// The factorial `k! = 1 * 2 * ... * k`, over the mathematical naturals.
pub open spec fn spec_factorial(k: nat) -> nat
    decreases k,
{
    if k == 0 {
        1
    } else {
        k * spec_factorial((k - 1) as nat)
    }
}

/// The largest argument whose factorial still fits in an `i32`.
pub const MAX_FACTORIAL_ARG: i32 = 12;

/// Whether `factorial` can return `k!` exactly.
pub open spec fn factorial_representable(k: int) -> bool {
    0 <= k <= MAX_FACTORIAL_ARG
}

/// The defining equations of the factorial: `0! = 1`, and `k! = k * (k - 1)!`
/// for every positive `k`.
pub proof fn lemma_factorial_recurrence(k: nat)
    ensures
        spec_factorial(0) == 1,
        k > 0 ==> spec_factorial(k) == k * spec_factorial((k - 1) as nat),
{
}

/// A factorial is never zero.
pub proof fn lemma_factorial_positive(k: nat)
    ensures
        spec_factorial(k) >= 1,
    decreases k,
{
    if k > 0 {
        lemma_factorial_positive((k - 1) as nat);
        assert(k * spec_factorial((k - 1) as nat) >= 1) by (nonlinear_arith)
            requires
                k >= 1,
                spec_factorial((k - 1) as nat) >= 1,
        ;
    }
}

/// The factorial grows with its argument.
pub proof fn lemma_factorial_monotonic(i: nat, j: nat)
    requires
        i <= j,
    ensures
        spec_factorial(i) <= spec_factorial(j),
    decreases j,
{
    if i < j {
        lemma_factorial_monotonic(i, (j - 1) as nat);
        lemma_factorial_positive((j - 1) as nat);
        assert(j * spec_factorial((j - 1) as nat) >= spec_factorial((j - 1) as nat))
            by (nonlinear_arith)
            requires
                j >= 1,
                spec_factorial((j - 1) as nat) >= 1,
        ;
    }
}

/// The two factorials on either side of the `i32` range.
pub proof fn lemma_factorial_limits()
    ensures
        spec_factorial(12) == 479001600,
        spec_factorial(13) == 6227020800,
{
    reveal_with_fuel(spec_factorial, 14);
}

/// `k!` fits in an `i32` exactly for the arguments up to `MAX_FACTORIAL_ARG`.
pub proof fn lemma_factorial_range(k: nat)
    ensures
        spec_factorial(k) <= i32::MAX <==> factorial_representable(k as int),
{
    lemma_factorial_limits();
    if k <= 12 {
        lemma_factorial_monotonic(k, 12);
    } else {
        lemma_factorial_monotonic(13, k);
    }
}

/// Computes `k!` exactly.
///
/// A negative argument, and one whose factorial does not fit in an `i32`, are
/// outside the domain and reported as `DomainError`.
pub fn factorial(k: i32) -> (r: Result<i32, SamplerError>)
    ensures
        factorial_representable(k as int) ==> r == Ok::<i32, SamplerError>(
            spec_factorial(k as nat) as i32,
        ),
        factorial_representable(k as int) ==> spec_factorial(k as nat) <= i32::MAX,
        !factorial_representable(k as int) ==> r == Err::<i32, SamplerError>(
            SamplerError::DomainError,
        ),
{
    if k < 0 || k > MAX_FACTORIAL_ARG {
        return Err(SamplerError::DomainError);
    }
    let mut acc: i32 = 1;
    let mut i: i32 = 0;
    while i < k
        invariant
            0 <= i <= k <= MAX_FACTORIAL_ARG,
            acc == spec_factorial(i as nat),
        decreases k - i,
    {
        proof {
            lemma_factorial_monotonic((i + 1) as nat, 12);
            lemma_factorial_limits();
            assert(acc * (i + 1) == spec_factorial((i + 1) as nat)) by {
                assert(spec_factorial((i + 1) as nat) == (i + 1) * spec_factorial(i as nat));
                assert(acc * (i + 1) == (i + 1) * acc) by (nonlinear_arith);
            }
        }
        i = i + 1;
        acc = acc * i;
    }
    Ok(acc)
}

} // verus!
