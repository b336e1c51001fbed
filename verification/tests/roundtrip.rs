//! End-to-end tests of the preparation half: compression round trip,
//! decompression failure phases, and the full inline path.

use std::io::Write;

use expander_precompile::precompile::prepare_call;
use expander_precompile::types::{PrecompileError, GAS};
use ethabi::Token;

fn gzip(data: &[u8]) -> Vec<u8> {
    let mut e = flate2::write::GzEncoder::new(Vec::new(), flate2::Compression::default());
    e.write_all(data).unwrap();
    e.finish().unwrap()
}

fn encode3(c: &[u8], w: &[u8], p: &[u8]) -> Vec<u8> {
    ethabi::encode(&[Token::Tuple(vec![
        Token::Bytes(c.to_vec()),
        Token::Bytes(w.to_vec()),
        Token::Bytes(p.to_vec()),
    ])])
}

/// Inline call data: the source tag 0 followed by the compressed payload.
fn inline_call(payload: &[u8]) -> Vec<u8> {
    let mut input = vec![0u8];
    input.extend(gzip(payload));
    input
}

#[test]
fn compression_round_trip_restores_payload() {
    let c = vec![10u8, 20, 30, 40];
    let w = vec![1u8; 40];
    let p = vec![2u8; 130];
    let input = inline_call(&encode3(&c, &w, &p));
    let t = prepare_call(&input, GAS).expect("valid inline call must decode");
    assert_eq!(t.circuit_bytes, c);
    assert_eq!(t.witness_bytes, w);
    assert_eq!(t.proof_bytes, p);
}

#[test]
fn fee_exactly_covered_is_admitted() {
    let input = inline_call(&encode3(b"c", b"w", b"p"));
    assert!(prepare_call(&input, GAS).is_ok());
    assert_eq!(prepare_call(&input, GAS - 1), Err(PrecompileError::OutOfGas));
}

#[test]
fn malformed_stream_fails_in_write_phase() {
    // Not a gzip stream at all: rejected while the bytes are fed in.
    let mut input = vec![0u8];
    input.extend(vec![0xffu8; 16]);
    assert_eq!(prepare_call(&input, GAS), Err(PrecompileError::DecompressWrite));
}

#[test]
fn truncated_stream_fails_in_finalize_phase() {
    // A valid stream cut before its trailer: accepted while written,
    // rejected at finalization.
    let full = gzip(&encode3(b"c", b"w", b"p"));
    let mut input = vec![0u8];
    input.extend(&full[..full.len() - 8]);
    assert_eq!(prepare_call(&input, GAS), Err(PrecompileError::DecompressFinish));
}

#[test]
fn empty_payload_fails_in_finalize_phase() {
    assert_eq!(prepare_call(&vec![0u8], GAS), Err(PrecompileError::DecompressFinish));
}

#[test]
fn decompressed_garbage_is_abi_format_error() {
    let input = inline_call(b"not an abi tuple");
    assert_eq!(prepare_call(&input, GAS), Err(PrecompileError::AbiFormat));
}

#[test]
fn two_element_payload_is_abi_format_error() {
    let payload = ethabi::encode(&[Token::Tuple(vec![
        Token::Bytes(vec![0xffu8; 300]),
        Token::Bytes(b"cd".to_vec()),
    ])]);
    let input = inline_call(&payload);
    assert_eq!(prepare_call(&input, GAS), Err(PrecompileError::AbiFormat));
}
