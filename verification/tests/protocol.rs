//! Tests of the invocation protocol: gas admission, source-tag handling,
//! verdict encoding, outcome finishing, and determinism.

use expander_precompile::precompile::{encode_verdict, finish_call, prepare_call, VerifyOutcome};
use expander_precompile::types::{PrecompileError, GAS};

#[test]
fn out_of_gas_below_fee_empty_data() {
    let r = prepare_call(&vec![], 0);
    assert_eq!(r, Err(PrecompileError::OutOfGas));
}

#[test]
fn out_of_gas_below_fee_malformed_data() {
    let r = prepare_call(&vec![7u8, 8, 9], GAS - 1);
    assert_eq!(r, Err(PrecompileError::OutOfGas));
}

#[test]
fn empty_data_with_fee_is_format_error() {
    let r = prepare_call(&vec![], GAS);
    assert_eq!(r, Err(PrecompileError::SourceTagFormat));
}

#[test]
fn unknown_source_tag_is_format_error() {
    assert_eq!(prepare_call(&vec![2u8], GAS), Err(PrecompileError::SourceTagFormat));
    assert_eq!(prepare_call(&vec![255u8, 0, 0], GAS), Err(PrecompileError::SourceTagFormat));
}

#[test]
fn external_source_tag_is_unimplemented() {
    assert_eq!(prepare_call(&vec![1u8], GAS), Err(PrecompileError::Unimplemented));
    assert_eq!(prepare_call(&vec![1u8, 42, 42], u64::MAX), Err(PrecompileError::Unimplemented));
}

#[test]
fn accept_verdict_is_y_with_full_fee() {
    let out = encode_verdict(true);
    assert_eq!(out.gas_used, 7500);
    assert_eq!(out.bytes, b"y".to_vec());
}

#[test]
fn reject_verdict_is_n_with_full_fee() {
    let out = encode_verdict(false);
    assert_eq!(out.gas_used, 7500);
    assert_eq!(out.bytes, b"n".to_vec());
}

#[test]
fn finish_maps_each_outcome() {
    assert_eq!(
        finish_call(VerifyOutcome::CircuitLoadFailed),
        Err(PrecompileError::CircuitLoad)
    );
    assert_eq!(finish_call(VerifyOutcome::ProofMalformed), Err(PrecompileError::ProofFormat));
    assert_eq!(
        finish_call(VerifyOutcome::ClaimedValueMalformed),
        Err(PrecompileError::ClaimedValueFormat)
    );
    let accept = finish_call(VerifyOutcome::Completed(true)).unwrap();
    assert_eq!((accept.gas_used, accept.bytes), (7500, b"y".to_vec()));
    let reject = finish_call(VerifyOutcome::Completed(false)).unwrap();
    assert_eq!((reject.gas_used, reject.bytes), (7500, b"n".to_vec()));
}

#[test]
fn identical_invocations_agree() {
    let inputs: Vec<Vec<u8>> = vec![
        vec![],
        vec![0],
        vec![1, 2, 3],
        vec![0, 31, 139, 8, 0],
        vec![2, 0, 0],
        vec![255; 64],
    ];
    for input in &inputs {
        for gas in [0u64, GAS - 1, GAS, GAS + 1] {
            assert_eq!(prepare_call(input, gas), prepare_call(input, gas));
        }
    }
    for outcome in [
        VerifyOutcome::CircuitLoadFailed,
        VerifyOutcome::ProofMalformed,
        VerifyOutcome::ClaimedValueMalformed,
        VerifyOutcome::Completed(true),
        VerifyOutcome::Completed(false),
    ] {
        assert_eq!(finish_call(outcome), finish_call(outcome));
    }
}

#[test]
fn error_messages_are_distinct() {
    let errors = [
        PrecompileError::OutOfGas,
        PrecompileError::SourceTagFormat,
        PrecompileError::Unimplemented,
        PrecompileError::DecompressWrite,
        PrecompileError::DecompressFinish,
        PrecompileError::AbiFormat,
        PrecompileError::CircuitLoad,
        PrecompileError::ProofFormat,
        PrecompileError::ClaimedValueFormat,
    ];
    for (i, a) in errors.iter().enumerate() {
        for (j, b) in errors.iter().enumerate() {
            assert_eq!(i == j, a.message() == b.message());
        }
    }
}
