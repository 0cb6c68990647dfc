//! Quantum Permutation Pad: a stream cipher that substitutes each byte through
//! one of several secret permutations of the byte values.

pub mod cipher;
pub mod laws;
pub mod pad;
pub mod prng;
pub mod seed;
