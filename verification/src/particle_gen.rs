//! Building the three distributions of an orbital from tabulated densities,
//! and drawing points from them.
//!
//! Each axis is discretised into `resolution` steps, of which only the half
//! at and below the midpoint of the axis is tabulated. A domain value is the
//! signed number of grid steps between a point and that midpoint, so the
//! tabulated rows hold `0, -1, -2, ...`, and mirroring a sampled value about
//! the midpoint is a change of sign.

use crate::cdf::{
    inverse_index, lemma_inverse_index_is_least, nondecreasing, total_of, CDFEntry, CDFTriple, CDF,
};
use crate::error::SamplerError;
use crate::fraction::Fraction;
use crate::special::MAX_FACTORIAL_ARG;
use crate::wavefunction::{valid_quantum_numbers, Wavefunction};
use vstd::prelude::*;

verus! {

/// The Bohr radius, 5.29, in hundredths of a length unit.
pub const BOHR_RADIUS: i64 = 529;

/// The length scale `a0 = scale * BOHR_RADIUS` of an orbital. With `scale` in
/// hundredths the product is in ten-thousandths of a length unit.
pub open spec fn bohr_scaled(scale: int) -> int {
    scale * BOHR_RADIUS
}

/// The number of rows tabulated for a grid of `resolution` steps: half of
/// them, and the midpoint itself when their number is odd.
pub open spec fn half_steps(resolution: int) -> int {
    (resolution + resolution % 2) / 2
}

/// The extent of the radial axis, in length units: radii run from zero to
/// this limit.
pub const GRID_LIMIT: u32 = 1000;

/// Whether a point `offset` steps from the midpoint lies on the grid of
/// `resolution` steps, in the tabulated half or in its mirror image.
pub open spec fn on_grid(resolution: int, offset: int) -> bool {
    resolution >= 2 && -half_steps(resolution) < offset < half_steps(resolution)
}

/// The sum of the first `count` densities.
pub open spec fn prefix_mass(densities: Seq<u64>, count: int) -> int
    decreases count,
{
    if count <= 0 {
        0
    } else {
        prefix_mass(densities, count - 1) + densities[count - 1]
    }
}

/// The sum of all densities.
pub open spec fn total_mass(densities: Seq<u64>) -> int {
    prefix_mass(densities, densities.len() as int)
}

/// The cumulative table of a density sampled along the half grid: row `i`
/// stands `i` steps below the midpoint and holds the mass of the densities up
/// to and including its own.
pub open spec fn tabulated(densities: Seq<u64>) -> Seq<CDFEntry> {
    Seq::new(
        densities.len(),
        |i: int| (CDFEntry { frac: prefix_mass(densities, i + 1) as u128, x: (-i) as i32 }),
    )
}

/// Why no distributions can be built from the given inputs, if anything
/// stands in the way. The checks come in this order: the quantum state, the
/// factorials it needs, the resolution and the lengths of the three density
/// tables, and last the mass of each table.
pub open spec fn build_failure(
    n: int,
    l: int,
    m: int,
    scale: int,
    resolution: int,
    radial: Seq<u64>,
    polar: Seq<u64>,
    azimuthal: Seq<u64>,
) -> Option<SamplerError> {
    if !(valid_quantum_numbers(n, l, m) && bohr_scaled(scale) > 0) {
        Some(SamplerError::InvalidQuantumState)
    } else if n + l > MAX_FACTORIAL_ARG {
        Some(SamplerError::DomainError)
    } else if resolution < 2 || radial.len() != half_steps(resolution) || polar.len()
        != half_steps(resolution) || azimuthal.len() != half_steps(resolution) {
        Some(SamplerError::InvalidResolution)
    } else if total_mass(radial) == 0 || total_mass(polar) == 0 || total_mass(azimuthal) == 0 {
        Some(SamplerError::DegenerateDistribution)
    } else {
        None
    }
}

/// The length scale `a0` of an orbital drawn at `scale`, which is given in
/// hundredths: `scale * BOHR_RADIUS`, in ten-thousandths of a length unit.
pub fn length_scale(scale: i32) -> (a0: i64)
    ensures
        a0 == bohr_scaled(scale as int),
        a0 > 0 <==> scale > 0,
{
    (scale as i64) * BOHR_RADIUS
}

/// The number of rows to tabulate on each axis for a grid of `reso` steps.
///
/// A resolution below two is refused as `InvalidResolution`.
pub fn half_grid_steps(reso: i32) -> (r: Result<usize, SamplerError>)
    ensures
        reso < 2 ==> r == Err::<usize, SamplerError>(SamplerError::InvalidResolution),
        reso >= 2 ==> r == Ok::<usize, SamplerError>(half_steps(reso as int) as usize),
        reso >= 2 ==> 1 <= half_steps(reso as int) <= 0x4000_0000,
{
    if reso < 2 {
        Err(SamplerError::InvalidResolution)
    } else {
        Ok((reso / 2 + reso % 2) as usize)
    }
}

/// Where on its axis a point lies that is `offset` steps from the midpoint,
/// as a fraction of the extent of the axis: one step is the extent divided by
/// `reso - 1`, and the midpoint lies at one half. The fraction is at most one.
///
/// A resolution below two is refused as `InvalidResolution`, an offset that
/// is not on the grid as `DomainError`.
pub fn axis_fraction(reso: i32, offset: i64) -> (r: Result<Fraction, SamplerError>)
    ensures
        reso < 2 ==> r == Err::<Fraction, SamplerError>(SamplerError::InvalidResolution),
        reso >= 2 && !on_grid(reso as int, offset as int) ==> r == Err::<Fraction, SamplerError>(
            SamplerError::DomainError,
        ),
        on_grid(reso as int, offset as int) ==> (r matches Ok(f) && f.num == reso - 1 + 2 * offset
            && f.den == 2 * (reso - 1) && f.num <= f.den),
{
    let steps: usize = match half_grid_steps(reso) {
        Ok(steps) => steps,
        Err(e) => {
            return Err(e);
        },
    };
    let bound: i64 = steps as i64;
    if offset <= -bound || offset >= bound {
        return Err(SamplerError::DomainError);
    }
    let span: i64 = (reso as i64) - 1;
    Ok(Fraction { num: (span + 2 * offset) as u64, den: (2 * span) as u64 })
}

/// The position, on an axis that runs from zero to `extent`, of the point
/// `offset` steps from the midpoint: `extent` times its fraction of the axis,
/// as an exact fraction. With `GRID_LIMIT` for the extent this is a radius.
///
/// A resolution below two is refused as `InvalidResolution`, an offset that
/// is not on the grid as `DomainError`.
pub fn axis_position(extent: u32, reso: i32, offset: i64) -> (r: Result<Fraction, SamplerError>)
    ensures
        reso < 2 ==> r == Err::<Fraction, SamplerError>(SamplerError::InvalidResolution),
        reso >= 2 && !on_grid(reso as int, offset as int) ==> r == Err::<Fraction, SamplerError>(
            SamplerError::DomainError,
        ),
        on_grid(reso as int, offset as int) ==> (r matches Ok(f) && f.num == extent * (reso - 1 + 2
            * offset) && f.den == 2 * (reso - 1)),
{
    match axis_fraction(reso, offset) {
        Ok(f) => {
            assert(extent * f.num <= 0xffff_ffff * 0xffff_ffff) by (nonlinear_arith)
                requires
                    0 <= extent <= 0xffff_ffff,
                    0 <= f.num <= 0xffff_ffff,
            ;
            Ok(Fraction { num: (extent as u64) * f.num, den: f.den })
        },
        Err(e) => Err(e),
    }
}

/// A prefix of a density holds at most one `u64` of mass per row.
proof fn lemma_prefix_mass_bounded(densities: Seq<u64>, count: int)
    requires
        0 <= count <= densities.len(),
    ensures
        0 <= prefix_mass(densities, count) <= count * u64::MAX,
    decreases count,
{
    if count > 0 {
        lemma_prefix_mass_bounded(densities, count - 1);
    }
}

/// A longer prefix of a density never holds less mass.
pub proof fn lemma_prefix_mass_monotonic(densities: Seq<u64>, shorter: int, longer: int)
    requires
        shorter <= longer,
    ensures
        prefix_mass(densities, shorter) <= prefix_mass(densities, longer),
    decreases longer - shorter,
{
    if shorter < longer {
        lemma_prefix_mass_monotonic(densities, shorter, longer - 1);
    }
}

/// The cumulative table of a density has one row per entry of the density,
/// its cumulative masses never decrease and never exceed what a `u128` holds,
/// its domain values descend from the midpoint, and its whole mass is the sum
/// of the density.
pub proof fn lemma_tabulated(densities: Seq<u64>)
    requires
        densities.len() <= 0x4000_0000,
    ensures
        tabulated(densities).len() == densities.len(),
        nondecreasing(tabulated(densities)),
        total_of(tabulated(densities)) == total_mass(densities),
        forall|i: int|
            0 <= i < densities.len() ==> (#[trigger] tabulated(densities)[i]).frac == prefix_mass(
                densities,
                i + 1,
            ) && tabulated(densities)[i].x == -i,
{
    let table = tabulated(densities);
    assert forall|i: int| 0 <= i < densities.len() implies (#[trigger] table[i]).frac
        == prefix_mass(densities, i + 1) && table[i].x == -i by {
        lemma_prefix_mass_bounded(densities, i + 1);
    }
    assert forall|i: int, j: int| 0 <= i <= j < table.len() implies table[i].frac
        <= table[j].frac by {
        lemma_prefix_mass_monotonic(densities, i + 1, j + 1);
    }
}

/// Where the inputs pass every check, each of the three tables has one row
/// for each step of the half grid and holds mass.
pub proof fn lemma_built_tables(
    n: int,
    l: int,
    m: int,
    scale: int,
    resolution: int,
    radial: Seq<u64>,
    polar: Seq<u64>,
    azimuthal: Seq<u64>,
)
    requires
        i32::MIN <= resolution <= i32::MAX,
        build_failure(n, l, m, scale, resolution, radial, polar, azimuthal).is_none(),
    ensures
        tabulated(radial).len() == half_steps(resolution),
        tabulated(polar).len() == half_steps(resolution),
        tabulated(azimuthal).len() == half_steps(resolution),
        nondecreasing(tabulated(radial)) && total_of(tabulated(radial)) > 0,
        nondecreasing(tabulated(polar)) && total_of(tabulated(polar)) > 0,
        nondecreasing(tabulated(azimuthal)) && total_of(tabulated(azimuthal)) > 0,
{
    lemma_tabulated(radial);
    lemma_tabulated(polar);
    lemma_tabulated(azimuthal);
    lemma_prefix_mass_bounded(radial, radial.len() as int);
    lemma_prefix_mass_bounded(polar, polar.len() as int);
    lemma_prefix_mass_bounded(azimuthal, azimuthal.len() as int);
}

/// Accumulates a density sampled along the half grid into a distribution.
fn tabulate(densities: &Vec<u64>) -> (cdf: CDF)
    requires
        densities@.len() <= 0x4000_0000,
    ensures
        cdf@ == tabulated(densities@),
        total_of(cdf@) == total_mass(densities@),
{
    let mut cdf = CDF::new();
    let mut i: usize = 0;
    while i < densities.len()
        invariant
            i <= densities@.len() <= 0x4000_0000,
            cdf@.len() == i,
            total_of(cdf@) == prefix_mass(densities@, i as int),
            forall|k: int| 0 <= k < i ==> cdf@[k] == tabulated(densities@)[k],
        decreases densities@.len() - i,
    {
        proof {
            lemma_prefix_mass_bounded(densities@, i as int);
        }
        let x: i32 = -(i as i32);
        cdf.add_point(x, densities[i]);
        i = i + 1;
    }
    assert(cdf@ =~= tabulated(densities@));
    cdf
}

/// Builds the radial, polar and azimuthal distributions of the orbital
/// `(n, l, m)` at the given scale.
///
/// `scale` is in hundredths, and the length scale of the orbital is
/// `length_scale(scale)`. Each density table
/// holds the squared wavefunction at the rows of the half grid, starting at
/// the midpoint of its axis, one entry per row.
///
/// The inputs are checked as `build_failure` describes; where it finds
/// nothing, each distribution is the cumulative table of its density.
pub fn gen_cdf(
    n: i32,
    l: i32,
    m: i32,
    scale: i32,
    reso: i32,
    radial: &Vec<u64>,
    polar: &Vec<u64>,
    azimuthal: &Vec<u64>,
) -> (r: Result<CDFTriple, SamplerError>)
    ensures
        match build_failure(
            n as int,
            l as int,
            m as int,
            scale as int,
            reso as int,
            radial@,
            polar@,
            azimuthal@,
        ) {
            Some(e) => r == Err::<CDFTriple, SamplerError>(e),
            None => r matches Ok(triple) && triple.radial@ == tabulated(radial@) && triple.polar@
                == tabulated(polar@) && triple.azimuthal@ == tabulated(azimuthal@),
        },
{
    match Wavefunction::new(n, l, m, length_scale(scale)) {
        Ok(_) => {},
        Err(e) => {
            return Err(e);
        },
    }
    let steps: usize = match half_grid_steps(reso) {
        Ok(steps) => steps,
        Err(e) => {
            return Err(e);
        },
    };
    if radial.len() != steps || polar.len() != steps || azimuthal.len() != steps {
        return Err(SamplerError::InvalidResolution);
    }
    let radial_cdf = tabulate(radial);
    let polar_cdf = tabulate(polar);
    let azimuthal_cdf = tabulate(azimuthal);
    if radial_cdf.total() == 0 || polar_cdf.total() == 0 || azimuthal_cdf.total() == 0 {
        return Err(SamplerError::DegenerateDistribution);
    }
    Ok(CDFTriple::new(radial_cdf, polar_cdf, azimuthal_cdf))
}

/// What the random source supplies for one sample: a fraction in `[0, 1)`
/// for each axis, and for each axis the choice whether to mirror the sampled
/// value about the midpoint of the axis.
#[derive(Clone, Copy, Debug, PartialEq, Eq, Structural)]
pub struct UniformDraws {
    pub radial: Fraction,
    pub polar: Fraction,
    pub azimuthal: Fraction,
    pub flip_radial: bool,
    pub flip_polar: bool,
    pub flip_azimuthal: bool,
}

/// A sampled point in spherical coordinates, each coordinate as the signed
/// number of grid steps from the midpoint of its axis.
#[derive(Clone, Copy, Debug, PartialEq, Eq, Structural)]
pub struct SamplePoint {
    pub r: i64,
    pub theta: i64,
    pub phi: i64,
}

impl UniformDraws {
    /// Whether all three fractions lie in `[0, 1)`.
    pub open spec fn in_range(self) -> bool {
        &&& self.radial.in_unit_interval()
        &&& self.polar.in_unit_interval()
        &&& self.azimuthal.in_unit_interval()
    }

    /// The draws that four words of random bits stand for: one word for the
    /// fraction of each axis, and the three lowest bits of `flips` for the
    /// mirroring of the radial, the polar and the azimuthal axis.
    pub open spec fn spec_from_bits(radial: u64, polar: u64, azimuthal: u64, flips: u64) -> Self {
        UniformDraws {
            radial: Fraction::spec_from_bits(radial),
            polar: Fraction::spec_from_bits(polar),
            azimuthal: Fraction::spec_from_bits(azimuthal),
            flip_radial: flips % 2 == 1,
            flip_polar: (flips / 2) % 2 == 1,
            flip_azimuthal: (flips / 4) % 2 == 1,
        }
    }

    /// Turns four words of random bits into the draws for one sample. The
    /// fractions are in range whatever the bits are.
    pub fn from_bits(radial: u64, polar: u64, azimuthal: u64, flips: u64) -> (draws: UniformDraws)
        ensures
            draws == Self::spec_from_bits(radial, polar, azimuthal, flips),
            draws.in_range(),
    {
        UniformDraws {
            radial: Fraction::from_bits(radial),
            polar: Fraction::from_bits(polar),
            azimuthal: Fraction::from_bits(azimuthal),
            flip_radial: flips % 2 == 1,
            flip_polar: (flips / 2) % 2 == 1,
            flip_azimuthal: (flips / 4) % 2 == 1,
        }
    }
}

/// A domain value, mirrored about the midpoint of its axis if `flip` is set.
pub open spec fn mirrored(x: int, flip: bool) -> int {
    if flip {
        -x
    } else {
        x
    }
}

/// The domain value that inverse-transform sampling selects for `u`.
pub open spec fn selected_value(entries: Seq<CDFEntry>, u: Fraction) -> int {
    entries[inverse_index(entries, u.num as int, u.den as int)].x as int
}

/// The point that the draws select from three tables, or the reason why they
/// select none: a fraction outside `[0, 1)` first, a table without mass
/// second.
pub open spec fn sample_outcome(
    radial: Seq<CDFEntry>,
    polar: Seq<CDFEntry>,
    azimuthal: Seq<CDFEntry>,
    draws: UniformDraws,
) -> Result<SamplePoint, SamplerError> {
    if !draws.in_range() {
        Err(SamplerError::OutOfRangeFraction)
    } else if total_of(radial) == 0 || total_of(polar) == 0 || total_of(azimuthal) == 0 {
        Err(SamplerError::DegenerateDistribution)
    } else {
        Ok(
            SamplePoint {
                r: mirrored(selected_value(radial, draws.radial), draws.flip_radial) as i64,
                theta: mirrored(selected_value(polar, draws.polar), draws.flip_polar) as i64,
                phi: mirrored(
                    selected_value(azimuthal, draws.azimuthal),
                    draws.flip_azimuthal,
                ) as i64,
            },
        )
    }
}

/// Sampling yields a point exactly where the three fractions lie in
/// `[0, 1)` and each table holds mass.
pub proof fn lemma_sample_succeeds(
    radial: Seq<CDFEntry>,
    polar: Seq<CDFEntry>,
    azimuthal: Seq<CDFEntry>,
    draws: UniformDraws,
)
    ensures
        sample_outcome(radial, polar, azimuthal, draws) is Ok <==> draws.in_range() && total_of(
            radial,
        ) > 0 && total_of(polar) > 0 && total_of(azimuthal) > 0,
{
}

/// A point drawn from the tables of a density lies on the grid, so that
/// `axis_fraction` and `axis_position` place it: each coordinate is a row of
/// the tabulated half where it is not mirrored, and the mirror image of one
/// where it is.
pub proof fn lemma_sampled_point_on_grid(
    n: int,
    l: int,
    m: int,
    scale: int,
    resolution: int,
    radial: Seq<u64>,
    polar: Seq<u64>,
    azimuthal: Seq<u64>,
    draws: UniformDraws,
)
    requires
        i32::MIN <= resolution <= i32::MAX,
        build_failure(n, l, m, scale, resolution, radial, polar, azimuthal).is_none(),
        draws.in_range(),
    ensures
        sample_outcome(tabulated(radial), tabulated(polar), tabulated(azimuthal), draws)
            matches Ok(point) && on_grid(resolution, point.r as int) && on_grid(
            resolution,
            point.theta as int,
        ) && on_grid(resolution, point.phi as int) && (point.r <= 0 <== !draws.flip_radial) && (
        point.theta <= 0 <== !draws.flip_polar) && (point.phi <= 0 <== !draws.flip_azimuthal),
{
    lemma_built_tables(n, l, m, scale, resolution, radial, polar, azimuthal);
    lemma_tabulated(radial);
    lemma_tabulated(polar);
    lemma_tabulated(azimuthal);
    lemma_inverse_index_is_least(
        tabulated(radial),
        draws.radial.num as int,
        draws.radial.den as int,
    );
    lemma_inverse_index_is_least(tabulated(polar), draws.polar.num as int, draws.polar.den as int);
    lemma_inverse_index_is_least(
        tabulated(azimuthal),
        draws.azimuthal.num as int,
        draws.azimuthal.den as int,
    );
}

/// Recovers the full domain from the tabulated half: each coordinate is
/// mirrored about the midpoint of its axis where the draws say so, and kept
/// otherwise.
pub fn randomize_octant(r: i32, theta: i32, phi: i32, draws: &UniformDraws) -> (point: SamplePoint)
    ensures
        point.r == mirrored(r as int, draws.flip_radial),
        point.theta == mirrored(theta as int, draws.flip_polar),
        point.phi == mirrored(phi as int, draws.flip_azimuthal),
{
    SamplePoint {
        r: if draws.flip_radial {
            -(r as i64)
        } else {
            r as i64
        },
        theta: if draws.flip_polar {
            -(theta as i64)
        } else {
            theta as i64
        },
        phi: if draws.flip_azimuthal {
            -(phi as i64)
        } else {
            phi as i64
        },
    }
}

/// Draws one point: inverts each of the three distributions at its fraction,
/// then mirrors each coordinate as the draws say.
pub fn sample_cdf(cdfs: &CDFTriple, draws: &UniformDraws) -> (r: Result<SamplePoint, SamplerError>)
    ensures
        r == sample_outcome(cdfs.radial@, cdfs.polar@, cdfs.azimuthal@, *draws),
{
    if !draws.radial.is_in_unit_interval() || !draws.polar.is_in_unit_interval()
        || !draws.azimuthal.is_in_unit_interval() {
        return Err(SamplerError::OutOfRangeFraction);
    }
    if cdfs.radial.total() == 0 || cdfs.polar.total() == 0 || cdfs.azimuthal.total() == 0 {
        return Err(SamplerError::DegenerateDistribution);
    }
    let radius: i32 = match cdfs.radial.inverse_transform(draws.radial) {
        Ok(x) => x,
        Err(e) => {
            return Err(e);
        },
    };
    let theta: i32 = match cdfs.polar.inverse_transform(draws.polar) {
        Ok(x) => x,
        Err(e) => {
            return Err(e);
        },
    };
    let phi: i32 = match cdfs.azimuthal.inverse_transform(draws.azimuthal) {
        Ok(x) => x,
        Err(e) => {
            return Err(e);
        },
    };
    Ok(randomize_octant(radius, theta, phi, draws))
}

/// Builds the distributions of the orbital `(n, l, m)` as `gen_cdf` does and
/// draws one point from them.
pub fn sample_wf_pdf(
    n: i32,
    l: i32,
    m: i32,
    scale: i32,
    reso: i32,
    radial: &Vec<u64>,
    polar: &Vec<u64>,
    azimuthal: &Vec<u64>,
    draws: &UniformDraws,
) -> (r: Result<SamplePoint, SamplerError>)
    ensures
        match build_failure(
            n as int,
            l as int,
            m as int,
            scale as int,
            reso as int,
            radial@,
            polar@,
            azimuthal@,
        ) {
            Some(e) => r == Err::<SamplePoint, SamplerError>(e),
            None => r == sample_outcome(
                tabulated(radial@),
                tabulated(polar@),
                tabulated(azimuthal@),
                *draws,
            ),
        },
{
    match gen_cdf(n, l, m, scale, reso, radial, polar, azimuthal) {
        Ok(cdfs) => sample_cdf(&cdfs, draws),
        Err(e) => Err(e),
    }
}

} // verus!
