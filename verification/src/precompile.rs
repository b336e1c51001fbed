//! The precompile invocation protocol: gas admission, source-tag
//! demultiplexing, payload decompression, artifact decoding, and encoding
//! of the verification verdict.
//!
//! The call runs in two halves. `prepare_call` performs every step up to
//! and including the decoding of the (circuit, witness, proof) tuple; its
//! outcome is a total function of the call data and the gas limit.
//! Verification itself belongs to an external proving system; whatever
//! that system reports is brought back as a `VerifyOutcome`, and
//! `finish_call` turns it into the call's result.

use vstd::prelude::*;
use crate::abi::spec_decode_bytes3;
use crate::abi::decode_bytes3;
use crate::gzip::gunzip;
use crate::gzip::gunzip_of;
use crate::types::DecodedTuple;
use crate::types::PrecompileError;
use crate::types::PrecompileOutput;
use crate::types::GAS;

verus! {

/// The outcome of the delegated verification steps, in the order the
/// adapter performs them: reconstructing the circuit from the circuit
/// bytes, deserializing the proof region and then the claimed-value
/// region of the proof bytes, and running the verifier. `Completed`
/// carries the verifier's boolean verdict.
#[derive(Clone, Copy, Debug, PartialEq, Eq, Structural)]
pub enum VerifyOutcome {
    CircuitLoadFailed,
    ProofMalformed,
    ClaimedValueMalformed,
    Completed(bool),
}

/// The outcome of the preparation half of a call, as a total function of
/// the call data and the gas limit: either the decoded artifact tuple or
/// the classified error. This is the contract of `prepare_call`.
pub open spec fn spec_prepare(
    input: Seq<u8>,
    gas_limit: u64,
) -> Result<(Seq<u8>, Seq<u8>, Seq<u8>), PrecompileError> {
    if gas_limit < GAS {
        Err(PrecompileError::OutOfGas)
    } else if input.len() == 0 {
        Err(PrecompileError::SourceTagFormat)
    } else if input[0] == 0 {
        match gunzip_of(input.subrange(1, input.len() as int)) {
            Ok(raw) => match spec_decode_bytes3(raw) {
                Some(t) => Ok(t),
                None => Err(PrecompileError::AbiFormat),
            },
            Err(e) => Err(e),
        }
    } else if input[0] == 1 {
        Err(PrecompileError::Unimplemented)
    } else {
        Err(PrecompileError::SourceTagFormat)
    }
}

/// The view of a preparation result: the decoded tuple as its three byte
/// sequences.
pub open spec fn prepare_view(
    r: Result<DecodedTuple, PrecompileError>,
) -> Result<(Seq<u8>, Seq<u8>, Seq<u8>), PrecompileError> {
    match r {
        Ok(t) => Ok((t.circuit_bytes@, t.witness_bytes@, t.proof_bytes@)),
        Err(e) => Err(e),
    }
}

/// Gas admission, source-tag demultiplexing, payload decompression and
/// artifact decoding, exactly as `spec_prepare` lays them down: a gas
/// limit below the fee is rejected before anything is read; empty call
/// data and tags other than 0 and 1 are format errors; tag 1 (the
/// external data source) is unimplemented; for tag 0 the remaining bytes
/// are decompressed and decoded as the (circuit, witness, proof) tuple.
#[verifier::loop_isolation(false)]
pub fn prepare_call(input: &Vec<u8>, gas_limit: u64) -> (r: Result<DecodedTuple, PrecompileError>)
    ensures
        prepare_view(r) == spec_prepare(input@, gas_limit),
{
    if gas_limit < GAS {
        return Err(PrecompileError::OutOfGas);
    }
    let il = input.len();
    if il == 0 {
        return Err(PrecompileError::SourceTagFormat);
    }
    let tag = input[0];
    if tag == 1 {
        return Err(PrecompileError::Unimplemented);
    }
    if tag != 0 {
        return Err(PrecompileError::SourceTagFormat);
    }
    let mut payload: Vec<u8> = Vec::new();
    let mut j: usize = 1;
    while j < il
        invariant
            1 <= j <= il,
            payload@ =~= input@.subrange(1, j as int),
        decreases il - j,
    {
        proof {
            let s1 = input@.subrange(1, j as int + 1);
            let s0 = input@.subrange(1, j as int);
            assert(s1.drop_last() =~= s0);
            assert(s1.last() == input@[j as int]);
        }
        payload.push(input[j]);
        j = j + 1;
    }
    assert(payload@ =~= input@.subrange(1, input@.len() as int));
    let raw = match gunzip(&payload) {
        Ok(raw) => raw,
        Err(e) => return Err(e),
    };
    match decode_bytes3(&raw) {
        Some(t) => Ok(t),
        None => Err(PrecompileError::AbiFormat),
    }
}

/// The call result owed for each verification outcome: the verifier's
/// verdict becomes the single byte `y` (accept) or `n` (reject) with the
/// full fee charged; each failed delegated step becomes its classified
/// error. This is the contract of `finish_call`.
pub open spec fn spec_finish(o: VerifyOutcome) -> Result<(u64, Seq<u8>), PrecompileError> {
    match o {
        VerifyOutcome::CircuitLoadFailed => Err(PrecompileError::CircuitLoad),
        VerifyOutcome::ProofMalformed => Err(PrecompileError::ProofFormat),
        VerifyOutcome::ClaimedValueMalformed => Err(PrecompileError::ClaimedValueFormat),
        VerifyOutcome::Completed(verdict) => Ok(
            (GAS, if verdict { seq![121u8] } else { seq![110u8] }),
        ),
    }
}

/// The view of a call result: the gas charged and the output bytes.
pub open spec fn output_view(
    r: Result<PrecompileOutput, PrecompileError>,
) -> Result<(u64, Seq<u8>), PrecompileError> {
    match r {
        Ok(out) => Ok((out.gas_used, out.bytes@)),
        Err(e) => Err(e),
    }
}

/// Maps the verifier's verdict to the call's successful output: the byte
/// `y` for accept, `n` for reject, with the full fee charged.
pub fn encode_verdict(verdict: bool) -> (out: PrecompileOutput)
    ensures
        out.gas_used == GAS,
        out.bytes@ == (if verdict { seq![121u8] } else { seq![110u8] }),
{
    let mut bytes: Vec<u8> = Vec::new();
    if verdict {
        bytes.push(121);  // 'y'
    } else {
        bytes.push(110);  // 'n'
    }
    assert(bytes@ =~= (if verdict { seq![121u8] } else { seq![110u8] }));
    PrecompileOutput { gas_used: GAS, bytes }
}

/// Turns the outcome of the delegated verification steps into the call's
/// result, exactly as `spec_finish` lays it down.
pub fn finish_call(outcome: VerifyOutcome) -> (r: Result<PrecompileOutput, PrecompileError>)
    ensures
        output_view(r) == spec_finish(outcome),
{
    match outcome {
        VerifyOutcome::CircuitLoadFailed => Err(PrecompileError::CircuitLoad),
        VerifyOutcome::ProofMalformed => Err(PrecompileError::ProofFormat),
        VerifyOutcome::ClaimedValueMalformed => Err(PrecompileError::ClaimedValueFormat),
        VerifyOutcome::Completed(verdict) => Ok(encode_verdict(verdict)),
    }
}

/// Below the fee, the call is rejected as out of gas whatever the call
/// data holds — including empty or malformed data.
pub proof fn lemma_low_gas_rejected(input: Seq<u8>, gas_limit: u64)
    requires
        gas_limit < GAS,
    ensures
        spec_prepare(input, gas_limit)
            == Err::<(Seq<u8>, Seq<u8>, Seq<u8>), PrecompileError>(PrecompileError::OutOfGas),
{
}

/// With the fee covered, call data whose leading byte is neither 0 nor 1
/// — or which is empty — is rejected as a source-tag format error.
pub proof fn lemma_unknown_source_tag_rejected(input: Seq<u8>, gas_limit: u64)
    requires
        gas_limit >= GAS,
        input.len() == 0 || (input[0] != 0 && input[0] != 1),
    ensures
        spec_prepare(input, gas_limit)
            == Err::<(Seq<u8>, Seq<u8>, Seq<u8>), PrecompileError>(
            PrecompileError::SourceTagFormat,
        ),
{
}

/// With the fee covered, a leading byte of 1 — the external data source —
/// is answered with `Unimplemented`, never by aborting the call's host.
pub proof fn lemma_external_source_unimplemented(input: Seq<u8>, gas_limit: u64)
    requires
        gas_limit >= GAS,
        input.len() > 0,
        input[0] == 1,
    ensures
        spec_prepare(input, gas_limit)
            == Err::<(Seq<u8>, Seq<u8>, Seq<u8>), PrecompileError>(PrecompileError::Unimplemented),
{
}

/// The preparation half is deterministic: any two results that meet
/// `prepare_call`'s contract for the same call data and gas limit agree.
pub proof fn lemma_prepare_deterministic(
    input: Seq<u8>,
    gas_limit: u64,
    r1: Result<DecodedTuple, PrecompileError>,
    r2: Result<DecodedTuple, PrecompileError>,
)
    requires
        prepare_view(r1) == spec_prepare(input, gas_limit),
        prepare_view(r2) == spec_prepare(input, gas_limit),
    ensures
        prepare_view(r1) == prepare_view(r2),
{
}

/// The finishing half is deterministic: any two results that meet
/// `finish_call`'s contract for the same verification outcome agree.
pub proof fn lemma_finish_deterministic(
    outcome: VerifyOutcome,
    r1: Result<PrecompileOutput, PrecompileError>,
    r2: Result<PrecompileOutput, PrecompileError>,
)
    requires
        output_view(r1) == spec_finish(outcome),
        output_view(r2) == spec_finish(outcome),
    ensures
        output_view(r1) == output_view(r2),
{
}

/// When preparation succeeds, and exactly then, the gas limit covers the
/// fee, the call data selects the inline source, the payload decompresses,
/// and the decompressed buffer decodes as the three-part artifact tuple —
/// which preparation returns.
pub proof fn lemma_prepare_success_characterized(input: Seq<u8>, gas_limit: u64)
    ensures
        spec_prepare(input, gas_limit) is Ok <==> (gas_limit >= GAS && input.len() > 0
            && input[0] == 0 && gunzip_of(input.subrange(1, input.len() as int)) is Ok
            && spec_decode_bytes3(gunzip_of(input.subrange(1, input.len() as int))->Ok_0) is Some),
        spec_prepare(input, gas_limit) is Ok ==> spec_prepare(input, gas_limit)->Ok_0
            == spec_decode_bytes3(gunzip_of(input.subrange(1, input.len() as int))->Ok_0)->Some_0,
{
}

} // verus!
