//! Precompile invocation protocol for a GKR proof-verification extension
//! point: gas admission, source-tag demultiplexing, payload decompression,
//! ABI decoding of the (circuit, witness, proof) artifact tuple, and
//! encoding of the verification verdict.

pub mod abi;
pub mod gzip;
pub mod precompile;
pub mod types;
