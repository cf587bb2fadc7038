//! Cumulative distributions over a tabulated density.

use crate::error::SamplerError;
use crate::fraction::Fraction;
use vstd::prelude::*;

verus! {

/// One row of a cumulative table: the mass accumulated up to and including
/// this row, and the domain value the row stands for.
#[derive(Clone, Copy, Debug, PartialEq, Eq, Structural)]
pub struct CDFEntry {
    pub frac: u128,
    pub x: i32,
}

impl CDFEntry {
    /// The row with no mass at the origin.
    pub fn new() -> (e: CDFEntry)
        ensures
            e.frac == 0,
            e.x == 0,
    {
        CDFEntry { frac: 0, x: 0 }
    }
}

/// The cumulative masses never decrease along the table.
pub open spec fn nondecreasing(entries: Seq<CDFEntry>) -> bool {
    forall|i: int, j: int| 0 <= i <= j < entries.len() ==> entries[i].frac <= entries[j].frac
}

/// Every row added at most one `u64` of mass to the rows before it.
pub open spec fn mass_bounded(entries: Seq<CDFEntry>) -> bool {
    forall|i: int| 0 <= i < entries.len() ==> (#[trigger] entries[i]).frac <= (i + 1) * u64::MAX
}

/// What holds of every table a `CDF` can contain.
pub open spec fn well_formed(entries: Seq<CDFEntry>) -> bool {
    nondecreasing(entries) && mass_bounded(entries)
}

/// The whole mass of a table: the cumulative mass of its last row, and zero
/// for the empty table.
pub open spec fn total_of(entries: Seq<CDFEntry>) -> int {
    if entries.len() == 0 {
        0
    } else {
        entries.last().frac as int
    }
}

/// Whether row `i` holds at least the fraction `num / den` of the whole mass.
pub open spec fn reaches(entries: Seq<CDFEntry>, i: int, num: int, den: int) -> bool {
    entries[i].frac * den >= num * total_of(entries)
}

/// The first row at or after `from` that reaches `num / den`, and the length
/// of the table if none does.
pub open spec fn first_reaching(entries: Seq<CDFEntry>, num: int, den: int, from: int) -> int
    decreases entries.len() - from,
{
    if from < 0 || from >= entries.len() || reaches(entries, from, num, den) {
        from
    } else {
        first_reaching(entries, num, den, from + 1)
    }
}

/// The row that inverse-transform sampling selects for the fraction
/// `num / den`: the first one whose share of the whole mass is at least that
/// fraction.
pub open spec fn inverse_index(entries: Seq<CDFEntry>, num: int, den: int) -> int {
    first_reaching(entries, num, den, 0)
}

/// `first_reaching` stops at a row that reaches the fraction and skips only
/// rows that do not.
pub proof fn lemma_first_reaching(entries: Seq<CDFEntry>, num: int, den: int, from: int)
    requires
        0 <= from <= entries.len(),
    ensures
        from <= first_reaching(entries, num, den, from) <= entries.len(),
        first_reaching(entries, num, den, from) < entries.len() ==> reaches(
            entries,
            first_reaching(entries, num, den, from),
            num,
            den,
        ),
        forall|j: int|
            from <= j < first_reaching(entries, num, den, from) ==> !reaches(entries, j, num, den),
    decreases entries.len() - from,
{
    if from < entries.len() && !reaches(entries, from, num, den) {
        lemma_first_reaching(entries, num, den, from + 1);
    }
}

/// In a table with mass, the last row reaches every fraction below one.
pub proof fn lemma_last_reaches(entries: Seq<CDFEntry>, num: int, den: int)
    requires
        total_of(entries) > 0,
        0 <= num < den,
    ensures
        entries.len() > 0,
        reaches(entries, entries.len() - 1, num, den),
{
    let total = total_of(entries);
    assert(total * den >= num * total) by (nonlinear_arith)
        requires
            total > 0,
            0 <= num < den,
    ;
}

/// The selected row exists, reaches the fraction, and no earlier row does.
pub proof fn lemma_inverse_index_is_least(entries: Seq<CDFEntry>, num: int, den: int)
    requires
        total_of(entries) > 0,
        0 <= num < den,
    ensures
        0 <= inverse_index(entries, num, den) < entries.len(),
        reaches(entries, inverse_index(entries, num, den), num, den),
        forall|j: int|
            0 <= j < inverse_index(entries, num, den) ==> !reaches(entries, j, num, den),
{
    lemma_first_reaching(entries, num, den, 0);
    lemma_last_reaches(entries, num, den);
}

/// A row that reaches the fraction while no earlier row does is the selected
/// row.
pub proof fn lemma_least_is_inverse_index(entries: Seq<CDFEntry>, num: int, den: int, k: int)
    requires
        0 <= k < entries.len(),
        reaches(entries, k, num, den),
        forall|j: int| 0 <= j < k ==> !reaches(entries, j, num, den),
    ensures
        inverse_index(entries, num, den) == k,
{
    lemma_first_reaching(entries, num, den, 0);
}

/// A cumulative distribution built by summing a tabulated density.
#[derive(Debug)]
pub struct CDF {
    points: Vec<CDFEntry>,
}

impl View for CDF {
    type V = Seq<CDFEntry>;

    closed spec fn view(&self) -> Seq<CDFEntry> {
        self.points@
    }
}

impl CDF {
    /// The invariant of the type; `use_type_invariant` makes it known.
    #[verifier::type_invariant]
    pub open spec fn wf(&self) -> bool {
        well_formed(self@)
    }

    /// The empty distribution, with no mass.
    pub fn new() -> (cdf: CDF)
        ensures
            cdf@ == Seq::<CDFEntry>::empty(),
    {
        CDF { points: Vec::new() }
    }

    /// The number of rows.
    pub fn len(&self) -> (n: usize)
        ensures
            n == self@.len(),
    {
        self.points.len()
    }

    /// The whole mass accumulated so far.
    pub fn total(&self) -> (t: u128)
        ensures
            t == total_of(self@),
    {
        let n: usize = self.points.len();
        if n == 0 {
            0
        } else {
            self.points[n - 1].frac
        }
    }

    /// The row at `index`, if there is one.
    pub fn entry(&self, index: usize) -> (e: Option<CDFEntry>)
        ensures
            index < self@.len() ==> e == Some(self@[index as int]),
            index >= self@.len() ==> e.is_none(),
    {
        if index < self.points.len() {
            Some(self.points[index])
        } else {
            None
        }
    }

    /// The share of the whole mass that is accumulated up to and including
    /// the row at `index`, as the fraction `frac / total`.
    ///
    /// There is none where the table has no such row or no mass, nor where
    /// the whole mass does not fit the `u64` parts of a `Fraction`.
    pub fn cumulative_fraction_at(&self, index: usize) -> (f: Option<Fraction>)
        ensures
            index < self@.len() && 0 < total_of(self@) <= u64::MAX ==> f == Some(
                (Fraction { num: self@[index as int].frac as u64, den: total_of(self@) as u64 }),
            ) && self@[index as int].frac <= total_of(self@),
            !(index < self@.len() && 0 < total_of(self@) <= u64::MAX) ==> f.is_none(),
    {
        proof {
            use_type_invariant(self);
        }
        let total: u128 = self.total();
        if index < self.points.len() && 0 < total && total <= u64::MAX as u128 {
            Some(Fraction { num: self.points[index].frac as u64, den: total as u64 })
        } else {
            None
        }
    }

    /// Appends a row for `x` that adds `density` to the mass accumulated so
    /// far.
    pub fn add_point(&mut self, x: i32, density: u64)
        ensures
            final(self)@ == old(self)@.push(
                (CDFEntry { frac: (total_of(old(self)@) + density) as u128, x }),
            ),
            total_of(final(self)@) == total_of(old(self)@) + density,
    {
        proof {
            use_type_invariant(&*self);
        }
        let before: u128 = self.total();
        let mut points: Vec<CDFEntry> = Vec::new();
        std::mem::swap(&mut points, &mut self.points);
        assert(before + density <= (points.len() + 1) * u64::MAX);
        points.push(CDFEntry { frac: before + density as u128, x });
        self.points = points;
    }

    /// The first row whose cumulative mass is at least `mass`.
    fn first_at_least(&self, mass: u128) -> (i: usize)
        requires
            self@.len() > 0,
            mass <= total_of(self@),
        ensures
            i < self@.len(),
            self@[i as int].frac >= mass,
            forall|j: int| 0 <= j < i ==> self@[j].frac < mass,
    {
        proof {
            use_type_invariant(self);
        }
        let mut low: usize = 0;
        let mut high: usize = self.points.len() - 1;
        while low < high
            invariant
                low <= high < self.points@.len(),
                self@ == self.points@,
                nondecreasing(self@),
                self@[high as int].frac >= mass,
                forall|j: int| 0 <= j < low ==> self@[j].frac < mass,
            decreases high - low,
        {
            let middle: usize = low + (high - low) / 2;
            if self.points[middle].frac < mass {
                low = middle + 1;
            } else {
                high = middle;
            }
        }
        low
    }

    /// The index of the row that inverse-transform sampling selects for `u`.
    ///
    /// A fraction outside `[0, 1)` is refused, and so is a table without
    /// mass, the empty one included.
    pub fn inverse_transform_index(&self, u: Fraction) -> (r: Result<usize, SamplerError>)
        ensures
            !u.in_unit_interval() ==> r == Err::<usize, SamplerError>(
                SamplerError::OutOfRangeFraction,
            ),
            u.in_unit_interval() && total_of(self@) == 0 ==> r == Err::<usize, SamplerError>(
                SamplerError::DegenerateDistribution,
            ),
            u.in_unit_interval() && total_of(self@) > 0 ==> (r matches Ok(index) && index
                == inverse_index(self@, u.num as int, u.den as int) && index < self@.len()),
    {
        if u.num >= u.den {
            return Err(SamplerError::OutOfRangeFraction);
        }
        let total: u128 = self.total();
        if total == 0 {
            return Err(SamplerError::DegenerateDistribution);
        }
        let mass: u128 = least_mass(total, u);
        let index: usize = self.first_at_least(mass);
        proof {
            let entries = self@;
            let num = u.num as int;
            let den = u.den as int;
            assert(reaches(entries, index as int, num, den)) by {
                lemma_scaled_order(mass as int, entries[index as int].frac as int, den);
            }
            assert forall|j: int| 0 <= j < index implies !reaches(entries, j, num, den) by {
                lemma_scaled_order(entries[j].frac as int, mass - 1, den);
            }
            lemma_least_is_inverse_index(entries, num, den, index as int);
        }
        Ok(index)
    }

    /// Inverse-transform sampling: the domain value of the first row whose
    /// share of the whole mass is at least `u`.
    ///
    /// A fraction outside `[0, 1)` is refused, and so is a table without
    /// mass, the empty one included.
    pub fn inverse_transform(&self, u: Fraction) -> (r: Result<i32, SamplerError>)
        ensures
            !u.in_unit_interval() ==> r == Err::<i32, SamplerError>(
                SamplerError::OutOfRangeFraction,
            ),
            u.in_unit_interval() && total_of(self@) == 0 ==> r == Err::<i32, SamplerError>(
                SamplerError::DegenerateDistribution,
            ),
            u.in_unit_interval() && total_of(self@) > 0 ==> r == Ok::<i32, SamplerError>(
                self@[inverse_index(self@, u.num as int, u.den as int)].x,
            ),
    {
        match self.inverse_transform_index(u) {
            Ok(index) => Ok(self.points[index].x),
            Err(e) => Err(e),
        }
    }
}

impl Clone for CDF {
    /// A copy with the same rows.
    fn clone(&self) -> (copy: CDF)
        ensures
            copy@ == self@,
    {
        proof {
            use_type_invariant(self);
        }
        let mut points: Vec<CDFEntry> = Vec::new();
        let mut i: usize = 0;
        while i < self.points.len()
            invariant
                i <= self.points@.len(),
                points@ == self.points@.subrange(0, i as int),
            decreases self.points@.len() - i,
        {
            points.push(self.points[i]);
            i = i + 1;
        }
        assert(points@ == self.points@);
        CDF { points }
    }
}

/// The three distributions from which one point in spherical coordinates is
/// drawn.
#[derive(Debug)]
pub struct CDFTriple {
    pub radial: CDF,
    pub polar: CDF,
    pub azimuthal: CDF,
}

impl CDFTriple {
    /// Bundles a radial, a polar and an azimuthal distribution.
    pub fn new(r: CDF, p: CDF, a: CDF) -> (triple: CDFTriple)
        ensures
            triple.radial == r,
            triple.polar == p,
            triple.azimuthal == a,
    {
        CDFTriple { radial: r, polar: p, azimuthal: a }
    }
}

/// Multiplying by a non-negative factor keeps the order of two numbers.
proof fn lemma_scaled_order(a: int, b: int, factor: int)
    requires
        a <= b,
        0 <= factor,
    ensures
        a * factor <= b * factor,
{
    assert(a * factor <= b * factor) by (nonlinear_arith)
        requires
            a <= b,
            0 <= factor,
    ;
}

/// The least mass that is at least the fraction `u` of `total`: the ceiling of
/// `u.num * total / u.den`.
fn least_mass(total: u128, u: Fraction) -> (t: u128)
    requires
        u.in_unit_interval(),
    ensures
        t <= total,
        t * u.den >= u.num * total,
        (t - 1) * u.den < u.num * total,
{
    let den: u128 = u.den as u128;
    let num: u128 = u.num as u128;
    let whole: u128 = total / den;
    let rest: u128 = total % den;
    proof {
        assert(total == whole * den + rest && 0 <= rest < den) by (nonlinear_arith)
            requires
                whole == total / den,
                rest == total % den,
                den > 0,
        ;
        assert(num * whole <= whole * den && num * rest <= rest * den && num * rest <= (den - 1)
            * (den - 1)) by (nonlinear_arith)
            requires
                0 <= num < den,
                0 <= whole,
                0 <= rest < den,
        ;
        assert((den - 1) * (den - 1) < 0x1_0000_0000_0000_0000_0000_0000_0000_0000)
            by (nonlinear_arith)
            requires
                0 < den <= 0xffff_ffff_ffff_ffff,
        ;
    }
    let scaled: u128 = num * rest;
    let floor: u128 = scaled / den;
    let extra: u128 = if scaled % den == 0 {
        0
    } else {
        1
    };
    proof {
        assert(scaled == floor * den + scaled % den && 0 <= scaled % den < den) by (nonlinear_arith)
            requires
                floor == scaled / den,
                den > 0,
        ;
        assert(floor + extra <= rest) by (nonlinear_arith)
            requires
                scaled == floor * den + scaled % den,
                0 <= scaled % den < den,
                extra == (if scaled % den == 0 { 0int } else { 1int }),
                scaled <= rest * den,
                den > 0,
                0 <= floor,
        ;
        assert((num * whole + floor + extra) * den >= num * total && (num * whole + floor + extra
            - 1) * den < num * total) by (nonlinear_arith)
            requires
                total == whole * den + rest,
                scaled == num * rest,
                scaled == floor * den + scaled % den,
                0 <= scaled % den < den,
                extra == (if scaled % den == 0 { 0int } else { 1int }),
        ;
    }
    num * whole + floor + extra
}

} // verus!
