//! What inverse-transform sampling guarantees on every cumulative table.

use crate::cdf::{
    inverse_index, lemma_inverse_index_is_least, lemma_last_reaches,
    lemma_least_is_inverse_index, nondecreasing, reaches, total_of, CDFEntry,
};
use vstd::prelude::*;

verus! {

/// The domain values never decrease along the table.
pub open spec fn domain_ascending(entries: Seq<CDFEntry>) -> bool {
    forall|i: int, j: int| 0 <= i <= j < entries.len() ==> entries[i].x <= entries[j].x
}

/// The domain values never increase along the table.
pub open spec fn domain_descending(entries: Seq<CDFEntry>) -> bool {
    forall|i: int, j: int| 0 <= i <= j < entries.len() ==> entries[i].x >= entries[j].x
}

/// Row `i` is selected by exactly the fractions above the cumulative share of
/// the row before it and up to its own: its part of the unit interval is as
/// long as its part of the mass. For the first row the interval starts at
/// zero, which is included.
pub proof fn lemma_selected_interval(entries: Seq<CDFEntry>, i: int, num: int, den: int)
    requires
        nondecreasing(entries),
        total_of(entries) > 0,
        0 <= num < den,
        0 <= i < entries.len(),
    ensures
        inverse_index(entries, num, den) == i <==> (i == 0 || entries[i - 1].frac * den < num
            * total_of(entries)) && num * total_of(entries) <= entries[i].frac * den,
{
    lemma_inverse_index_is_least(entries, num, den);
    let total = total_of(entries);
    if (i == 0 || entries[i - 1].frac * den < num * total) && num * total <= entries[i].frac
        * den {
        assert forall|j: int| 0 <= j < i implies !reaches(entries, j, num, den) by {
            let below = entries[j].frac as int;
            let bound = entries[i - 1].frac as int;
            assert(below * den <= bound * den) by (nonlinear_arith)
                requires
                    below <= bound,
                    den > 0,
            ;
        }
        lemma_least_is_inverse_index(entries, num, den, i);
    }
    if inverse_index(entries, num, den) == i {
        assert(reaches(entries, i, num, den));
        if i > 0 {
            assert(!reaches(entries, i - 1, num, den));
        }
    }
}

/// The fraction zero selects the first row of the table.
pub proof fn lemma_inverse_at_zero(entries: Seq<CDFEntry>, den: int)
    requires
        total_of(entries) > 0,
        den > 0,
    ensures
        inverse_index(entries, 0, den) == 0,
{
    let first = entries[0].frac as int;
    let total = total_of(entries);
    assert(first * den >= 0 * total) by (nonlinear_arith)
        requires
            first >= 0,
            den > 0,
    ;
    lemma_least_is_inverse_index(entries, 0, den, 0);
}

/// Every fraction above the share of the second-to-last row selects the last
/// row; in a table of one row every fraction does.
pub proof fn lemma_inverse_near_one(entries: Seq<CDFEntry>, num: int, den: int)
    requires
        nondecreasing(entries),
        total_of(entries) > 0,
        0 <= num < den,
        entries.len() >= 2 ==> entries[entries.len() - 2].frac * den < num * total_of(entries),
    ensures
        inverse_index(entries, num, den) == entries.len() - 1,
{
    let last = entries.len() - 1;
    lemma_last_reaches(entries, num, den);
    assert forall|j: int| 0 <= j < last implies !reaches(entries, j, num, den) by {
        let below = entries[j].frac as int;
        let bound = entries[last - 1].frac as int;
        assert(below * den <= bound * den) by (nonlinear_arith)
            requires
                below <= bound,
                den > 0,
        ;
    }
    lemma_least_is_inverse_index(entries, num, den, last);
}

/// A larger fraction never selects an earlier row.
pub proof fn lemma_inverse_monotonic(
    entries: Seq<CDFEntry>,
    num1: int,
    den1: int,
    num2: int,
    den2: int,
)
    requires
        total_of(entries) > 0,
        0 <= num1 < den1,
        0 <= num2 < den2,
        num1 * den2 <= num2 * den1,
    ensures
        inverse_index(entries, num1, den1) <= inverse_index(entries, num2, den2),
{
    lemma_inverse_index_is_least(entries, num1, den1);
    lemma_inverse_index_is_least(entries, num2, den2);
    let k = inverse_index(entries, num2, den2);
    let mass = entries[k].frac as int;
    let total = total_of(entries);
    assert(mass * den1 >= num1 * total) by (nonlinear_arith)
        requires
            mass * den2 >= num2 * total,
            num1 * den2 <= num2 * den1,
            total > 0,
            mass >= 0,
            0 <= num1 < den1,
            0 <= num2 < den2,
    ;
    assert(reaches(entries, k, num1, den1));
}

/// Over a domain tabulated in ascending order the sampled value never
/// decreases as the fraction grows; over one tabulated in descending order it
/// never increases.
pub proof fn lemma_inverse_value_monotonic(
    entries: Seq<CDFEntry>,
    num1: int,
    den1: int,
    num2: int,
    den2: int,
)
    requires
        total_of(entries) > 0,
        0 <= num1 < den1,
        0 <= num2 < den2,
        num1 * den2 <= num2 * den1,
    ensures
        domain_ascending(entries) ==> entries[inverse_index(entries, num1, den1)].x
            <= entries[inverse_index(entries, num2, den2)].x,
        domain_descending(entries) ==> entries[inverse_index(entries, num1, den1)].x
            >= entries[inverse_index(entries, num2, den2)].x,
{
    lemma_inverse_monotonic(entries, num1, den1, num2, den2);
    lemma_inverse_index_is_least(entries, num1, den1);
    lemma_inverse_index_is_least(entries, num2, den2);
}

/// Sampling at the cumulative share of row `i` leads back to row `i`: to the
/// first row with the same cumulative mass, which is row `i` itself whenever
/// that row added mass.
///
/// The share of a row that completes the whole mass is one, which is no
/// sampling fraction; such rows are left out.
pub proof fn lemma_round_trip(entries: Seq<CDFEntry>, i: int)
    requires
        nondecreasing(entries),
        0 <= i < entries.len(),
        entries[i].frac < total_of(entries),
    ensures
        0 <= inverse_index(entries, entries[i].frac as int, total_of(entries)) <= i,
        entries[inverse_index(entries, entries[i].frac as int, total_of(entries))].frac
            == entries[i].frac,
        (i == 0 || entries[i - 1].frac < entries[i].frac) ==> inverse_index(
            entries,
            entries[i].frac as int,
            total_of(entries),
        ) == i,
{
    let share = entries[i].frac as int;
    let total = total_of(entries);
    lemma_inverse_index_is_least(entries, share, total);
    let k = inverse_index(entries, share, total);
    assert(reaches(entries, i, share, total));
    let found = entries[k].frac as int;
    assert(found >= share) by (nonlinear_arith)
        requires
            found * total >= share * total,
            total > 0,
    ;
    if i > 0 && entries[i - 1].frac < entries[i].frac {
        assert forall|j: int| 0 <= j < i implies !reaches(entries, j, share, total) by {
            let below = entries[j].frac as int;
            assert(below * total < share * total) by (nonlinear_arith)
                requires
                    below < share,
                    total > 0,
            ;
        }
    }
}

} // verus!
