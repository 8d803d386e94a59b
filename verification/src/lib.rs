//! Layout arithmetic, byte framing and row assembly for experiments with
//! GGSW external products over 64-bit torus ciphertexts.
pub mod params;
pub mod rows;
pub mod codec;
pub mod fhe;
pub mod experiment;
