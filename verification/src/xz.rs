//! Decompression of downloaded artifact bytes.  The xz transform itself
//! is done by the `xz2` crate; this module gives its result a name and
//! states what the verified callers may rely on.

use vstd::prelude::*;
use crate::error::Error;

verus! {

/// The decompressed form of the xz stream `s`: a function of the input
/// bytes alone.
pub uninterp spec fn xz_decoded(s: Seq<u8>) -> Seq<u8>;

/// Whether `s` is one complete, well-formed xz stream — the condition
/// under which decompression succeeds, a function of the input bytes
/// alone.
pub uninterp spec fn xz_valid(s: Seq<u8>) -> bool;

#[verifier::external_type_specification]
#[verifier::external_body]
pub struct ExIoError(std::io::Error);

/// Relies on `xz2::write::XzDecoder` over a `Vec<u8>` sink: writing one
/// whole compressed stream into the decoder and finishing it leaves the
/// decompressed bytes in the sink.  Both the outcome and the bytes are
/// deterministic functions of the input bytes alone: decoding succeeds
/// exactly when the input is one complete, well-formed xz stream, and a
/// truncated or corrupt stream surfaces as an error.
#[verifier::external_body]
fn xz_decode_raw(data: &Vec<u8>) -> (r: Result<Vec<u8>, std::io::Error>)
    ensures
        r is Ok <==> xz_valid(data@),
        r matches Ok(v) ==> v@ == xz_decoded(data@),
{
    let mut dec = xz2::write::XzDecoder::new(Vec::new());
    if let Err(e) = std::io::Write::write_all(&mut dec, data.as_slice()) {
        return Err(e);
    }
    dec.finish()
}

/// Decompress one downloaded artifact.  Decompression succeeds exactly
/// when the input is a valid xz stream, and then the result is exactly
/// its decompressed form; any other input is reported as a decompression
/// error.
pub fn decompress_artifact(data: &Vec<u8>) -> (r: Result<Vec<u8>, Error>)
    ensures
        match r {
            Ok(v) => xz_valid(data@) && v@ == xz_decoded(data@),
            Err(e) => !xz_valid(data@) && e == Error::Decompress,
        },
{
    match xz_decode_raw(data) {
        Ok(v) => Ok(v),
        Err(_) => Err(Error::Decompress),
    }
}

} // verus!
