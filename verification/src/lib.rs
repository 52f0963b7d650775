//! Field arithmetic for BLS12-377: the base field and the scalar field.
//!
//! Field elements are arrays of `u64` limbs in Montgomery form, little-endian as all encodings of
//! this crate. Each element stands for a number below the order of its field, which is its view.
//! Both orders are proved to be prime.

pub mod base;
mod base_laws;
mod base_order;
pub mod biguint;
mod congruence;
pub mod conversions;
pub mod limbs;
pub mod montgomery;
pub mod num_util;
pub mod primes;
pub mod random;
pub mod scalar;
mod scalar_laws;
mod scalar_order;
mod scalar_powers;
mod scalar_subgroups;

pub use base::Bls12Base;
pub use scalar::Bls12Scalar;
