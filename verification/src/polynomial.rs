//! The polynomials of the radial and the angular part, as `scilib` builds
//! them.
//!
//! A `Poly` holds real coefficients and is evaluated by the caller; the
//! library only asks for the right one, with orders that `scilib` can handle.

use scilib::math::polynomial::Poly;
use vstd::prelude::*;

verus! {

/// `scilib::math::polynomial::Poly`, a polynomial with real coefficients. The
/// library sees nothing inside it.
#[verifier::external_type_specification]
#[verifier::external_body]
pub struct ExPoly(scilib::math::polynomial::Poly);

/// The largest degree that is asked of `scilib`. Up to here the binomial
/// coefficients and factorials that it works out in machine integers stay in
/// range.
pub const MAX_POLYNOMIAL_DEGREE: u32 = 12;

/// Calls `Poly::laguerre`, which builds the generalised Laguerre polynomial
/// of the given degree and parameter from binomial coefficients and from the
/// factorials of the numbers up to the degree.
///
/// Nothing is claimed of the result. The bound on the degree keeps those
/// factorials within a `usize`.
#[verifier::external_body]
pub(crate) fn laguerre(degree: u32, alpha: u32) -> (poly: Poly)
    requires
        degree <= MAX_POLYNOMIAL_DEGREE,
{
    Poly::laguerre(degree as usize, alpha)
}

/// Calls `Poly::gen_legendre`, which builds the associated Legendre
/// polynomial of the given degree and order by differentiating the Legendre
/// polynomial of that degree. It panics on an order above the degree.
///
/// Nothing is claimed of the result. The bound on the degree keeps the
/// binomial coefficients of the Legendre polynomial within a `usize`.
#[verifier::external_body]
pub(crate) fn gen_legendre(degree: u32, order: u32) -> (poly: Poly)
    requires
        order <= degree <= MAX_POLYNOMIAL_DEGREE,
{
    Poly::gen_legendre(degree as usize, order as isize)
}

} // verus!
