use num::complex::Complex;
use orblib::cdf::CDF;
use orblib::error::SamplerError;
use orblib::fraction::Fraction;
use orblib::particle_gen::{
    axis_fraction, axis_position, gen_cdf, half_grid_steps, length_scale, sample_cdf,
    sample_wf_pdf, UniformDraws, GRID_LIMIT,
};
use orblib::wavefunction::Wavefunction;
use std::f64::consts::PI;

/// A wavefunction evaluated in floating point on top of the exact constants.
struct Orbital {
    core: Wavefunction,
    a0: f64,
    radial_constant: f64,
    angular_constant: f64,
}

impl Orbital {
    fn new(n: i32, l: i32, m: i32, a0: i64) -> Result<Orbital, SamplerError> {
        let core = Wavefunction::new(n, l, m, a0)?;
        let a0 = core.a0() as f64 / 10000.0;
        let radial = core.radial_norm();
        let angular = core.angular_norm();
        let radial_constant = ((2.0 / (core.n() as f64 * a0)).powi(3) * radial.num as f64
            / radial.den as f64)
            .sqrt();
        let angular_constant = core.angular_sign() as f64
            * (angular.num as f64 / (4.0 * PI * angular.den as f64)).sqrt();
        Ok(Orbital { core, a0, radial_constant, angular_constant })
    }

    fn radial(&self, r: f64) -> f64 {
        let p = 2.0 * r / (self.core.n() as f64 * self.a0);
        self.radial_constant
            * self.core.laguerre_poly().compute(p)
            * (-p / 2.0).exp()
            * p.powi(self.core.l())
    }

    fn angular(&self, theta: f64, phi: f64) -> f64 {
        let phase = Complex::new(0.0, self.core.m() as f64 * phi).exp();
        self.angular_constant * self.core.legendre_poly().compute(theta.cos()) * phase.re
    }
}

fn as_float(f: Fraction) -> f64 {
    f.num as f64 / f.den as f64
}

/// Scales a density so that its largest value becomes 2^53, and rounds down.
fn quantize(density: &[f64]) -> Vec<u64> {
    let largest = density.iter().cloned().fold(0.0, f64::max);
    density
        .iter()
        .map(|d| if largest > 0.0 { (d / largest * 9007199254740992.0) as u64 } else { 0 })
        .collect()
}

/// The squared radial part at the rows of the half grid.
fn radial_density(orbital: &Orbital, reso: i32) -> Vec<u64> {
    let steps = half_grid_steps(reso).unwrap();
    let mut density = Vec::new();
    for i in 0..steps {
        let r = as_float(axis_position(GRID_LIMIT, reso, -(i as i64)).unwrap());
        density.push(orbital.radial(r).powi(2));
    }
    quantize(&density)
}

/// The squared angular part at the rows of the polar half grid, summed over
/// the azimuthal one.
fn polar_density(orbital: &Orbital, reso: i32) -> Vec<u64> {
    let steps = half_grid_steps(reso).unwrap();
    let mut density = Vec::new();
    for i in 0..steps {
        let theta = PI * as_float(axis_fraction(reso, -(i as i64)).unwrap());
        let mut sum = 0.0;
        for j in 0..steps {
            let phi = 2.0 * PI * as_float(axis_fraction(reso, -(j as i64)).unwrap());
            sum += orbital.angular(theta, phi).powi(2);
        }
        density.push(sum);
    }
    quantize(&density)
}

/// The squared angular part at the rows of the azimuthal half grid, summed
/// over the polar one.
fn azimuthal_density(orbital: &Orbital, reso: i32) -> Vec<u64> {
    let steps = half_grid_steps(reso).unwrap();
    let mut density = Vec::new();
    for j in 0..steps {
        let phi = 2.0 * PI * as_float(axis_fraction(reso, -(j as i64)).unwrap());
        let mut sum = 0.0;
        for i in 0..steps {
            let theta = PI * as_float(axis_fraction(reso, -(i as i64)).unwrap());
            sum += orbital.angular(theta, phi).powi(2);
        }
        density.push(sum);
    }
    quantize(&density)
}

/// A small deterministic generator of 64 random bits.
struct SplitMix {
    state: u64,
}

impl SplitMix {
    fn next(&mut self) -> u64 {
        self.state = self.state.wrapping_add(0x9E3779B97F4A7C15);
        let mut z = self.state;
        z = (z ^ (z >> 30)).wrapping_mul(0xBF58476D1CE4E5B9);
        z = (z ^ (z >> 27)).wrapping_mul(0x94D049BB133111EB);
        z ^ (z >> 31)
    }

    fn draws(&mut self) -> UniformDraws {
        UniformDraws::from_bits(self.next(), self.next(), self.next(), self.next())
    }
}

fn nondecreasing_with_mass(cdf: &CDF) -> bool {
    let mut before: u128 = 0;
    for i in 0..cdf.len() {
        let row = cdf.entry(i).unwrap();
        if row.frac < before {
            return false;
        }
        before = row.frac;
    }
    cdf.total() > 0 && cdf.total() == before
}

#[test]
fn radial_part_matches_reference_values() {
    let atom = Orbital::new(2, 1, 1, 10000).unwrap();
    assert!((atom.radial(1.0) - 0.1238).abs() < 1e-4);

    let atom = Orbital::new(5, 3, 1, 10000).unwrap();
    assert!((atom.radial(2.0) - 0.000984).abs() < 1e-5);

    // n = 5, l = 1 with a0 = 3, against the Laguerre polynomial written out:
    // L_3^3(p) = 20 - 15 p + 3 p^2 - p^3 / 6.
    let atom = Orbital::new(5, 1, 1, 30000).unwrap();
    let p: f64 = 2.0 * 2.0 / (5.0 * 3.0);
    let constant = ((2.0_f64 / 15.0).powi(3) * 6.0 / 7200.0).sqrt();
    let expected =
        constant * (20.0 - 15.0 * p + 3.0 * p * p - p * p * p / 6.0) * (-p / 2.0).exp() * p;
    assert!((atom.radial(2.0) - expected).abs() < 1e-12);
    assert!((expected - 0.005317).abs() < 1e-6);

    // 1s orbital at the origin: 2 / a0^(3/2).
    let atom = Orbital::new(1, 0, 0, 10000).unwrap();
    assert!((atom.radial(0.0) - 2.0).abs() < 1e-12);

    // 2p orbital with a0 = 3: r * exp(-r / (2 a0)) / (2 * sqrt(6) * a0^(5/2)).
    let atom = Orbital::new(2, 1, 0, 30000).unwrap();
    let expected = 2.0 * (-2.0_f64 / 6.0).exp() / (2.0 * 6.0_f64.sqrt() * 3.0_f64.powf(2.5));
    assert!((atom.radial(2.0) - expected).abs() < 1e-12);
}

#[test]
fn angular_part_matches_reference_values() {
    let atom = Orbital::new(4, 3, 1, 10000).unwrap();
    assert!((atom.angular(0.21, 2.0) + 0.10605).abs() < 1e-3);

    let atom = Orbital::new(5, 4, 1, 10000).unwrap();
    assert!((atom.angular(2.0, 3.0) + 0.316835).abs() < 1e-3);

    // The s orbital is the constant 1 / sqrt(4 pi).
    let atom = Orbital::new(1, 0, 0, 10000).unwrap();
    assert!((atom.angular(0.7, 1.9) - 1.0 / (4.0 * PI).sqrt()).abs() < 1e-12);
}

#[test]
fn polynomials_are_those_of_the_quantum_numbers() {
    // n = 5, l = 1: L_3^3(p) = 20 - 15 p + 3 p^2 - p^3 / 6.
    let w = Wavefunction::new(5, 1, 0, 1).unwrap();
    for p in [0.0_f64, 0.25, 1.0, 3.5] {
        let expected = 20.0 - 15.0 * p + 3.0 * p * p - p * p * p / 6.0;
        assert!((w.laguerre_poly().compute(p) - expected).abs() < 1e-12);
    }
    // l = 1, m = 0: P_1(x) = x.
    assert!((w.legendre_poly().compute(0.3) - 0.3).abs() < 1e-15);

    // l = 2, |m| = 2: P_2^2(x) = 3 (1 - x^2).
    let w = Wavefunction::new(3, 2, -2, 1).unwrap();
    for x in [-1.0_f64, -0.4, 0.0, 0.9] {
        assert!((w.legendre_poly().compute(x) - 3.0 * (1.0 - x * x)).abs() < 1e-12);
    }
    // n = 3, l = 2: L_0^5 = 1.
    assert!((w.laguerre_poly().compute(7.0) - 1.0).abs() < 1e-15);

    // l = 1, |m| = 1: P_1^1(x) = -sqrt(1 - x^2).
    let w = Wavefunction::new(2, 1, 1, 1).unwrap();
    assert!((w.legendre_poly().compute(0.6) + 0.8).abs() < 1e-12);

    // The largest orders within reach are built without trouble.
    let w = Wavefunction::new(12, 0, 0, 1).unwrap();
    assert!((w.laguerre_poly().compute(0.0) - 12.0).abs() < 1e-9);
    let w = Wavefunction::new(6, 5, 5, 1).unwrap();
    assert!((w.legendre_poly().compute(0.0) + 945.0).abs() < 1e-9);
    let w = Wavefunction::new(7, 5, -3, 1).unwrap();
    assert!(w.legendre_poly().compute(0.5).is_finite());
}

#[test]
fn negative_magnetic_number_uses_its_magnitude() {
    let plus = Orbital::new(4, 3, 1, 10000).unwrap();
    let minus = Orbital::new(4, 3, -1, 10000).unwrap();
    assert_eq!(minus.core.legendre_order(), 1);
    assert!((plus.angular(0.21, 2.0) - minus.angular(0.21, 2.0)).abs() < 1e-12);
}

#[test]
fn ground_state_distributions_have_fifty_rows() {
    let atom = Orbital::new(1, 0, 0, length_scale(500)).unwrap();
    let radial = radial_density(&atom, 100);
    let polar = polar_density(&atom, 100);
    let azimuthal = azimuthal_density(&atom, 100);
    let cdfs = gen_cdf(1, 0, 0, 500, 100, &radial, &polar, &azimuthal).unwrap();
    assert_eq!(cdfs.radial.len(), 50);
    assert_eq!(cdfs.polar.len(), 50);
    assert_eq!(cdfs.azimuthal.len(), 50);
    assert!(nondecreasing_with_mass(&cdfs.radial));
    assert!(nondecreasing_with_mass(&cdfs.polar));
    assert!(nondecreasing_with_mass(&cdfs.azimuthal));
    for i in 0..50 {
        assert_eq!(cdfs.radial.entry(i).unwrap().x, -(i as i32));
    }
}

#[test]
fn particle_gen_test_sampler() {
    let atom = Orbital::new(1, 0, 0, length_scale(500)).unwrap();
    let radial = radial_density(&atom, 100);
    let polar = polar_density(&atom, 100);
    let azimuthal = azimuthal_density(&atom, 100);
    gen_cdf(1, 0, 0, 500, 100, &radial, &polar, &azimuthal).unwrap();
}

#[test]
fn wavefunction_test_sampler() {
    let atom = Orbital::new(1, 0, 0, length_scale(500)).unwrap();
    let radial = radial_density(&atom, 100);
    let polar = polar_density(&atom, 100);
    let azimuthal = azimuthal_density(&atom, 100);
    let draws = UniformDraws {
        radial: Fraction::new(1, 2),
        polar: Fraction::new(1, 3),
        azimuthal: Fraction::new(2, 3),
        flip_radial: false,
        flip_polar: true,
        flip_azimuthal: false,
    };
    let point = orblib::wavefunction::sample_wf_pdf(
        1, 0, 0, 500, 100, &radial, &polar, &azimuthal, &draws,
    )
    .unwrap();
    assert_eq!(
        Ok(point),
        sample_wf_pdf(1, 0, 0, 500, 100, &radial, &polar, &azimuthal, &draws)
    );
    let cdfs = gen_cdf(1, 0, 0, 500, 100, &radial, &polar, &azimuthal).unwrap();
    assert_eq!(Ok(point), sample_cdf(&cdfs, &draws));
    assert!(-50 < point.r && point.r <= 0);
    assert!(0 <= point.theta && point.theta < 50);
    assert!(-50 < point.phi && point.phi <= 0);
}

#[test]
fn p_orbital_distributions_follow_the_nodes() {
    // 2p with m = 0: the angular part is proportional to cos(theta), so the
    // polar density vanishes at the midpoint of the axis and peaks at its end.
    let atom = Orbital::new(2, 1, 0, length_scale(100)).unwrap();
    let polar = polar_density(&atom, 101);
    assert_eq!(polar.len(), 51);
    assert_eq!(polar[0], 0);
    assert_eq!(polar[50], 1 << 53);
    let radial = radial_density(&atom, 101);
    let azimuthal = azimuthal_density(&atom, 101);
    let cdfs = gen_cdf(2, 1, 0, 100, 101, &radial, &polar, &azimuthal).unwrap();
    assert_eq!(cdfs.polar.entry(0).unwrap().frac, 0);
    // The fraction zero still selects the first row.
    assert_eq!(cdfs.polar.inverse_transform(Fraction::new(0, 1)), Ok(0));
    // Any positive fraction selects a row with mass.
    let x = cdfs.polar.inverse_transform(Fraction::new(1, 1 << 53)).unwrap();
    assert!(x < 0);
}

#[test]
fn sampled_radius_of_the_ground_state_has_the_analytic_mean() {
    // Radii are drawn from the radial probability density r^2 R(r)^2 on the
    // tabulated half of the axis, and are not mirrored.
    let reso = 2001;
    let scale = 500;
    let atom = Orbital::new(1, 0, 0, length_scale(scale)).unwrap();
    let steps = half_grid_steps(reso).unwrap();
    let mut density = Vec::new();
    for i in 0..steps {
        let r = as_float(axis_position(GRID_LIMIT, reso, -(i as i64)).unwrap());
        density.push((r * atom.radial(r)).powi(2));
    }
    let radial = quantize(&density);
    let flat = vec![1u64; steps];
    let cdfs = gen_cdf(1, 0, 0, scale, reso, &radial, &flat, &flat).unwrap();

    let mut rng = SplitMix { state: 2024 };
    let mut sum = 0.0;
    for _ in 0..10000 {
        let mut draws = rng.draws();
        draws.flip_radial = false;
        let point = sample_cdf(&cdfs, &draws).unwrap();
        sum += as_float(axis_position(GRID_LIMIT, reso, point.r).unwrap());
    }
    let mean = sum / 10000.0;
    let expected = 1.5 * atom.a0;
    assert!((atom.a0 - 26.45).abs() < 1e-12);
    assert!((mean - expected).abs() < 1.0, "mean {} expected {}", mean, expected);
}

#[test]
fn mirrored_samples_cover_both_halves_evenly() {
    let flat = vec![1u64; 50];
    let cdfs = gen_cdf(1, 0, 0, 500, 100, &flat, &flat, &flat).unwrap();
    let mut rng = SplitMix { state: 7 };
    let mut above = 0;
    let mut sum: i64 = 0;
    for _ in 0..10000 {
        let draws = rng.draws();
        let point = sample_cdf(&cdfs, &draws).unwrap();
        assert!(-50 < point.theta && point.theta < 50);
        if point.theta > 0 {
            above += 1;
        }
        sum += point.theta;
    }
    // Half of the samples off the midpoint are mirrored: 4900 expected.
    assert!((above as i64 - 4900).abs() < 250);
    assert!(sum.abs() < 10000 * 2);
}
