//! The integer skeleton of a hydrogen-like orbital: its quantum numbers and
//! the exact rational parts of its normalisation constants.

use crate::error::SamplerError;
use crate::fraction::Fraction;
pub use crate::particle_gen::sample_wf_pdf;
use crate::polynomial::{gen_legendre, laguerre};
pub use crate::special::factorial;
use crate::special::{
    lemma_factorial_limits, lemma_factorial_monotonic, lemma_factorial_positive, spec_factorial,
    MAX_FACTORIAL_ARG,
};
use scilib::math::polynomial::Poly;
use vstd::prelude::*;

verus! {

/// The rules that the quantum numbers of an orbital obey.
pub open spec fn valid_quantum_numbers(n: int, l: int, m: int) -> bool {
    &&& n >= 1
    &&& 0 <= l <= n - 1
    &&& -l <= m <= l
}

/// The absolute value of an integer.
pub open spec fn magnitude(m: int) -> int {
    if m < 0 {
        -m
    } else {
        m
    }
}

/// Numerator of the rational part of the squared radial constant, `(n - l - 1)!`.
pub open spec fn radial_norm_num(n: int, l: int) -> int {
    spec_factorial((n - l - 1) as nat) as int
}

/// Denominator of the rational part of the squared radial constant,
/// `2n * (n + l)!`.
pub open spec fn radial_norm_den(n: int, l: int) -> int {
    2 * n * spec_factorial((n + l) as nat)
}

/// Numerator of the rational part of the squared angular constant,
/// `(2l + 1) * (l - |m|)!`.
pub open spec fn angular_norm_num(l: int, m: int) -> int {
    (2 * l + 1) * spec_factorial((l - magnitude(m)) as nat)
}

/// Denominator of the rational part of the squared angular constant,
/// `(l + |m|)!`.
pub open spec fn angular_norm_den(l: int, m: int) -> int {
    spec_factorial((l + magnitude(m)) as nat) as int
}

/// The sign `(-1)^m`.
pub open spec fn phase_sign(m: int) -> int {
    if m % 2 == 0 {
        1
    } else {
        -1
    }
}

/// What a `Wavefunction` stands for: three quantum numbers and the length
/// scale `a0`, the latter in ten-thousandths of a length unit.
pub struct QuantumState {
    pub n: int,
    pub l: int,
    pub m: int,
    pub a0: int,
}

impl QuantumState {
    /// The states for which a wavefunction can be built: valid quantum
    /// numbers, a positive length scale, and factorials that fit the machine.
    pub open spec fn admissible(self) -> bool {
        &&& valid_quantum_numbers(self.n, self.l, self.m)
        &&& self.a0 > 0
        &&& self.n + self.l <= MAX_FACTORIAL_ARG
    }
}

/// A hydrogen-like orbital with its polynomials and normalisation constants
/// worked out once.
///
/// The radial part is the generalised Laguerre polynomial of degree
/// `n - l - 1` and parameter `2l + 1`, times the radial constant
/// `sqrt((2 / (n * a0))^3 * radial_norm)`. The angular part is the associated
/// Legendre polynomial of degree `l` and order `|m|`, times the angular
/// constant `angular_sign * sqrt(angular_norm / (4 * pi))`. The fractions are
/// kept exact here; the roots and the evaluation are left to the caller.
#[derive(Debug)]
pub struct Wavefunction {
    n: i32,
    l: i32,
    m: i32,
    a0: i64,
    radial: Fraction,
    angular: Fraction,
    laguerre_poly: Poly,
    legendre_poly: Poly,
}

impl View for Wavefunction {
    type V = QuantumState;

    closed spec fn view(&self) -> QuantumState {
        QuantumState { n: self.n as int, l: self.l as int, m: self.m as int, a0: self.a0 as int }
    }
}

impl Wavefunction {
    /// The invariant of the type: an admissible state, with the constants
    /// that belong to it.
    #[verifier::type_invariant]
    pub closed spec fn wf(&self) -> bool {
        &&& self@.admissible()
        &&& self.radial.num == radial_norm_num(self.n as int, self.l as int)
        &&& self.radial.den == radial_norm_den(self.n as int, self.l as int)
        &&& self.angular.num == angular_norm_num(self.l as int, self.m as int)
        &&& self.angular.den == angular_norm_den(self.l as int, self.m as int)
    }

    /// Builds the orbital `(n, l, m)` with length scale `a0`, given in
    /// ten-thousandths of a length unit.
    ///
    /// Quantum numbers outside `n >= 1`, `0 <= l <= n - 1`, `-l <= m <= l` and
    /// a scale that is not positive are refused as `InvalidQuantumState`. A
    /// valid state whose constants need a factorial beyond
    /// `MAX_FACTORIAL_ARG` is refused as `DomainError`.
    pub fn new(n: i32, l: i32, m: i32, a0: i64) -> (r: Result<Wavefunction, SamplerError>)
        ensures
            !(valid_quantum_numbers(n as int, l as int, m as int) && a0 > 0) ==> r == Err::<
                Wavefunction,
                SamplerError,
            >(SamplerError::InvalidQuantumState),
            valid_quantum_numbers(n as int, l as int, m as int) && a0 > 0 && n + l
                > MAX_FACTORIAL_ARG ==> r == Err::<Wavefunction, SamplerError>(
                SamplerError::DomainError,
            ),
            valid_quantum_numbers(n as int, l as int, m as int) && a0 > 0 && n + l
                <= MAX_FACTORIAL_ARG ==> (r matches Ok(w) && w@ == (QuantumState {
                n: n as int,
                l: l as int,
                m: m as int,
                a0: a0 as int,
            })),
    {
        if n < 1 || l < 0 || l > n - 1 || m > l || m < -l || a0 <= 0 {
            return Err(SamplerError::InvalidQuantumState);
        }
        if n > MAX_FACTORIAL_ARG || l > MAX_FACTORIAL_ARG - n {
            return Err(SamplerError::DomainError);
        }
        let order: i32 = if m < 0 {
            -m
        } else {
            m
        };
        proof {
            lemma_factorial_limits();
            lemma_factorial_monotonic((n - l - 1) as nat, 12);
            lemma_factorial_monotonic((n + l) as nat, 12);
            lemma_factorial_monotonic((l - order) as nat, 12);
            lemma_factorial_monotonic((l + order) as nat, 12);
        }
        let below: i32 = match factorial(n - l - 1) {
            Ok(v) => v,
            Err(e) => {
                return Err(e);
            },
        };
        let above: i32 = match factorial(n + l) {
            Ok(v) => v,
            Err(e) => {
                return Err(e);
            },
        };
        let inner: i32 = match factorial(l - order) {
            Ok(v) => v,
            Err(e) => {
                return Err(e);
            },
        };
        let outer: i32 = match factorial(l + order) {
            Ok(v) => v,
            Err(e) => {
                return Err(e);
            },
        };
        let twice: i64 = 2 * (n as i64);
        assert(twice * above <= 24 * 479001600) by (nonlinear_arith)
            requires
                0 <= twice <= 24,
                0 <= above <= 479001600,
        ;
        let weight: i64 = 2 * (l as i64) + 1;
        assert(weight * inner <= 25 * 479001600) by (nonlinear_arith)
            requires
                0 <= weight <= 25,
                0 <= inner <= 479001600,
        ;
        assert(0 <= twice * above && 0 <= weight * inner) by (nonlinear_arith)
            requires
                0 <= twice,
                0 <= above,
                0 <= weight,
                0 <= inner,
        ;
        let radial = Fraction { num: below as u64, den: (twice * (above as i64)) as u64 };
        let angular = Fraction { num: (weight * (inner as i64)) as u64, den: outer as u64 };
        let laguerre_poly = laguerre((n - l - 1) as u32, (2 * l + 1) as u32);
        let legendre_poly = gen_legendre(l as u32, order as u32);
        Ok(Wavefunction { n, l, m, a0, radial, angular, laguerre_poly, legendre_poly })
    }

    /// The principal quantum number.
    pub fn n(&self) -> (v: i32)
        ensures
            v == self@.n,
            self@.admissible(),
    {
        proof {
            use_type_invariant(self);
        }
        self.n
    }

    /// The azimuthal quantum number.
    pub fn l(&self) -> (v: i32)
        ensures
            v == self@.l,
            self@.admissible(),
    {
        proof {
            use_type_invariant(self);
        }
        self.l
    }

    /// The magnetic quantum number.
    pub fn m(&self) -> (v: i32)
        ensures
            v == self@.m,
            self@.admissible(),
    {
        proof {
            use_type_invariant(self);
        }
        self.m
    }

    /// The length scale, in ten-thousandths of a length unit.
    pub fn a0(&self) -> (v: i64)
        ensures
            v == self@.a0,
            self@.admissible(),
    {
        proof {
            use_type_invariant(self);
        }
        self.a0
    }

    /// Degree of the generalised Laguerre polynomial of the radial part,
    /// `n - l - 1`.
    pub fn laguerre_degree(&self) -> (d: u32)
        ensures
            d == self@.n - self@.l - 1,
    {
        proof {
            use_type_invariant(self);
        }
        (self.n - self.l - 1) as u32
    }

    /// Parameter of the generalised Laguerre polynomial of the radial part,
    /// `2l + 1`.
    pub fn laguerre_alpha(&self) -> (alpha: u32)
        ensures
            alpha == 2 * self@.l + 1,
    {
        proof {
            use_type_invariant(self);
        }
        (2 * self.l + 1) as u32
    }

    /// Degree of the associated Legendre polynomial of the angular part, `l`.
    pub fn legendre_degree(&self) -> (d: u32)
        ensures
            d == self@.l,
    {
        proof {
            use_type_invariant(self);
        }
        self.l as u32
    }

    /// Order of the associated Legendre polynomial of the angular part, `|m|`,
    /// which never exceeds its degree.
    pub fn legendre_order(&self) -> (order: u32)
        ensures
            order == magnitude(self@.m),
            order <= self@.l,
    {
        proof {
            use_type_invariant(self);
        }
        if self.m < 0 {
            (-self.m) as u32
        } else {
            self.m as u32
        }
    }

    /// The polynomial of the radial part: what `scilib` builds as the
    /// generalised Laguerre polynomial of degree `laguerre_degree` and
    /// parameter `laguerre_alpha`.
    pub fn laguerre_poly(&self) -> (poly: &Poly)
        ensures
            poly == self.spec_laguerre_poly(),
    {
        &self.laguerre_poly
    }

    /// The polynomial of the angular part: what `scilib` builds as the
    /// associated Legendre polynomial of degree `legendre_degree` and order
    /// `legendre_order`.
    pub fn legendre_poly(&self) -> (poly: &Poly)
        ensures
            poly == self.spec_legendre_poly(),
    {
        &self.legendre_poly
    }

    /// The polynomial held for the radial part.
    pub closed spec fn spec_laguerre_poly(&self) -> Poly {
        self.laguerre_poly
    }

    /// The polynomial held for the angular part.
    pub closed spec fn spec_legendre_poly(&self) -> Poly {
        self.legendre_poly
    }

    /// The rational part of the squared radial constant,
    /// `(n - l - 1)! / (2n * (n + l)!)`, with a denominator that is not zero.
    pub fn radial_norm(&self) -> (f: Fraction)
        ensures
            f.num == radial_norm_num(self@.n, self@.l),
            f.den == radial_norm_den(self@.n, self@.l),
            f.den > 0,
    {
        proof {
            use_type_invariant(self);
            lemma_factorial_positive((self.n + self.l) as nat);
            let above = spec_factorial((self.n + self.l) as nat) as int;
            let n = self.n as int;
            assert(2 * n * above > 0) by (nonlinear_arith)
                requires
                    n >= 1,
                    above >= 1,
            ;
        }
        self.radial
    }

    /// The rational part of the squared angular constant,
    /// `(2l + 1) * (l - |m|)! / (l + |m|)!`, with a denominator that is not
    /// zero; the constant itself carries a further factor `1 / (4 * pi)`.
    pub fn angular_norm(&self) -> (f: Fraction)
        ensures
            f.num == angular_norm_num(self@.l, self@.m),
            f.den == angular_norm_den(self@.l, self@.m),
            f.den > 0,
    {
        proof {
            use_type_invariant(self);
            lemma_factorial_positive((self.l + magnitude(self.m as int)) as nat);
        }
        self.angular
    }

    /// The sign `(-1)^m` of the angular constant: `1` or `-1`.
    pub fn angular_sign(&self) -> (sign: i32)
        ensures
            sign == phase_sign(self@.m),
    {
        if self.m % 2 == 0 {
            1
        } else {
            -1
        }
    }
}

} // verus!
