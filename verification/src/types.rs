//! Core data types of the precompile protocol: the fixed gas fee, the error
//! taxonomy, the decoded artifact tuple, and the successful call output.

use vstd::prelude::*;

verus! {

/// Fixed fee, in gas units, charged for one verification attempt.
pub const GAS: u64 = 7500;

/// Classified terminal failures of a precompile call.
///
/// Every failure of the call surfaces as exactly one of these variants;
/// no path through the protocol panics or aborts.
#[derive(Clone, Copy, Debug, PartialEq, Eq, Structural)]
pub enum PrecompileError {
    /// The caller's gas budget is below the fixed fee.
    OutOfGas,
    /// The call data is empty, or its leading source tag is neither 0 nor 1.
    SourceTagFormat,
    /// The leading source tag selects the external data source, which is
    /// deliberately not supported.
    Unimplemented,
    /// The compressed payload was rejected while its bytes were being fed
    /// to the decompressor.
    DecompressWrite,
    /// The compressed payload was rejected when the decompressed stream was
    /// finalized (truncated or corrupt trailer).
    DecompressFinish,
    /// The decompressed payload is not a well-formed ABI encoding of a
    /// 3-tuple of byte strings.
    AbiFormat,
    /// The circuit bytes could not be reconstructed into a circuit.
    CircuitLoad,
    /// The proof region of the proof bytes could not be deserialized.
    ProofFormat,
    /// The claimed-value region of the proof bytes could not be deserialized.
    ClaimedValueFormat,
}

impl PrecompileError {
    /// A short, fixed description of the failure, for host-side display.
    pub fn message(&self) -> String {
        match self {
            PrecompileError::OutOfGas => "out of gas".to_string(),
            PrecompileError::SourceTagFormat => "data type format error".to_string(),
            PrecompileError::Unimplemented => "external data source not implemented".to_string(),
            PrecompileError::DecompressWrite => "gzip decode write error".to_string(),
            PrecompileError::DecompressFinish => "gzip decode finish error".to_string(),
            PrecompileError::AbiFormat => "payload tuple format error".to_string(),
            PrecompileError::CircuitLoad => "circuit load error".to_string(),
            PrecompileError::ProofFormat => "proof format error".to_string(),
            PrecompileError::ClaimedValueFormat => "claimed value format error".to_string(),
        }
    }
}

/// The three byte strings extracted from the decompressed payload, in the
/// fixed order (circuit, witness, proof) of the external contract.
#[derive(Clone, Debug, PartialEq, Eq)]
pub struct DecodedTuple {
    pub circuit_bytes: Vec<u8>,
    pub witness_bytes: Vec<u8>,
    pub proof_bytes: Vec<u8>,
}

/// The successful result of a precompile call: the gas charged and the
/// verdict bytes handed back to the caller.
#[derive(Clone, Debug, PartialEq, Eq)]
pub struct PrecompileOutput {
    pub gas_used: u64,
    pub bytes: Vec<u8>,
}

} // verus!
