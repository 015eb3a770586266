//! The zlib codec of the `flate2` crate, as far as the bit store uses it.
//! Nothing here is proved: each contract states what the crate is trusted
//! to do.

use vstd::prelude::*;
use flate2::read::ZlibDecoder;
use flate2::write::ZlibEncoder;
use flate2::Compression;
use std::io::{Read, Write};

verus! {

/// The error type of `std::io`, carried through as an opaque value.
#[verifier::external_type_specification]
#[verifier::external_body]
pub struct ExIoError(std::io::Error);

/// The zlib stream that `flate2`'s encoder writes for `data` at the
/// compression level `level`.
pub uninterp spec fn zlib_compressed(data: Seq<u8>, level: u32) -> Seq<u8>;

/// What `flate2`'s zlib decoder reads from `compressed`: the bytes that it
/// yields up to the end of the stream, or `None` where it reports an error.
pub uninterp spec fn zlib_decoded(compressed: Seq<u8>) -> Option<Seq<u8>>;

/// Runs `flate2::write::ZlibEncoder` over `data` into a fresh vector: `new`
/// with the level, `write_all`, `finish`.
///
/// Trusted: the output depends on `data` and `level` alone, and
/// `flate2::read::ZlibDecoder` reads `data` back from it. The levels are
/// those that every backend of the crate takes.
#[verifier::external_body]
pub(crate) fn zlib_compress(data: &Vec<u8>, level: u32) -> (packed: Vec<u8>)
    requires
        level <= 9,
    ensures
        packed@ == zlib_compressed(data@, level),
        zlib_decoded(packed@) == Some(data@),
{
    let mut e = ZlibEncoder::new(Vec::new(), Compression::new(level));
    e.write_all(data).ok();
    e.finish().expect("flate2 should compress")
}

/// Runs `flate2::read::ZlibDecoder` over `compressed` with `read_to_end`.
///
/// Trusted: whether it fails, and the bytes that it yields where it does
/// not, depend on `compressed` alone.
#[verifier::external_body]
pub(crate) fn zlib_decompress(compressed: &Vec<u8>) -> (r: Result<Vec<u8>, std::io::Error>)
    ensures
        match r {
            Ok(values) => zlib_decoded(compressed@) == Some(values@),
            Err(_) => zlib_decoded(compressed@) is None,
        },
{
    let mut values = vec![];
    let mut decoder = ZlibDecoder::new(&compressed[..]);
    decoder.read_to_end(&mut values)?;
    Ok(values)
}

} // verus!
