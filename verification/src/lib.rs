//! The exact core of a sampler for hydrogen-like atomic orbitals.
//!
//! Given the quantum numbers `(n, l, m)` of an orbital and a density
//! tabulated on a grid, the library builds cumulative distributions and draws
//! points from them by inverse-transform sampling. All of its own arithmetic
//! is on integers, so its results are exact and its contracts are proved:
//!
//! - `special` computes factorials;
//! - `wavefunction` validates quantum numbers, works out the rational parts
//!   of the normalisation constants of an orbital, and has `scilib` build its
//!   two polynomials through the wrappers of `polynomial`;
//! - `cdf` accumulates a density into a cumulative table and inverts it at a
//!   fraction by binary search, and `cdf_lemmas` states what that inversion
//!   guarantees;
//! - `particle_gen` lays out the grid, builds the radial, polar and azimuthal
//!   distributions of an orbital, and draws points in spherical coordinates.
//!
//! Real quantities cross the boundary as integers. A density is a table of
//! `u64` masses, a sampling fraction is a `Fraction` of two `u64`, a length
//! scale is a count of ten-thousandths of a length unit, and a coordinate is a
//! signed number of grid steps from the midpoint of its axis. Evaluating the
//! wavefunction itself, with its roots and exponentials, is left to the
//! caller.

pub mod cdf;
pub mod cdf_lemmas;
pub mod error;
pub mod fraction;
pub mod particle_gen;
pub mod polynomial;
pub mod special;
pub mod wavefunction;
