//! Payload decompression: the inline payload is a gzip stream, expanded
//! through an outside codec into the raw byte buffer that the ABI decoder
//! consumes.

use vstd::prelude::*;
use std::io::Write;
use crate::types::PrecompileError;

verus! {

/// What gzip decompression yields on a given compressed byte string:
/// either the decompressed bytes, or the classified failure
/// (`DecompressWrite` or `DecompressFinish`, by the phase in which the
/// stream is rejected). Decompression is a deterministic function of the
/// bytes alone.
pub uninterp spec fn gunzip_of(data: Seq<u8>) -> Result<Seq<u8>, PrecompileError>;

/// Relies on flate2's write-side gzip decoder (`GzDecoder::new`,
/// `Write::write_all`, `GzDecoder::finish`): feeding the whole buffer and
/// finishing yields the decompressed stream in the inner writer; a
/// malformed stream is rejected while being written, a truncated or
/// corrupt trailer on finish; the outcome depends on the bytes alone.
#[verifier::external_body]
pub(crate) fn gunzip(data: &Vec<u8>) -> (r: Result<Vec<u8>, PrecompileError>)
    ensures
        (match r {
            Ok(raw) => gunzip_of(data@) == Ok::<Seq<u8>, PrecompileError>(raw@),
            Err(e) => gunzip_of(data@) == Err::<Seq<u8>, PrecompileError>(e)
                && (e == PrecompileError::DecompressWrite
                    || e == PrecompileError::DecompressFinish),
        }),
{
    let mut decoder = flate2::write::GzDecoder::new(Vec::new());
    if decoder.write_all(data.as_slice()).is_err() {
        return Err(PrecompileError::DecompressWrite);
    }
    match decoder.finish() {
        Ok(raw) => Ok(raw),
        Err(_) => Err(PrecompileError::DecompressFinish),
    }
}

} // verus!
