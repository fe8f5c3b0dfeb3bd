//! The gzip encoding transform, supplied by an outside compressor.
use vstd::prelude::*;

verus! {

/// The gzip encoding of a byte sequence at the default compression
/// level: a fixed function of the bytes alone, left uninterpreted.
pub uninterp spec fn gzip_of(data: Seq<u8>) -> Seq<u8>;

/// Relies on flate2's `write::GzEncoder` over an in-memory buffer:
/// with a blank header (mtime zero, fixed system byte) and the default
/// level, the encoded output is a function of the input bytes alone,
/// and writing into a `Vec` cannot fail.
#[verifier::external_body]
pub(crate) fn gzip_compress(data: &[u8]) -> (r: Vec<u8>)
    ensures
        r@ == gzip_of(data@),
{
    let mut enc = flate2::write::GzEncoder::new(Vec::new(), flate2::Compression::default());
    std::io::Write::write_all(&mut enc, data).unwrap();
    enc.finish().unwrap()
}

} // verus!
