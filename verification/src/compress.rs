//! Sector decompression: a compressed sector carries a leading algorithm
//! byte; of the known codes, the zlib (deflate) code `0x02` is supported.

use vstd::prelude::*;
use vstd::slice::slice_subrange;

use crate::errors::Error;

verus! {

/// The algorithm code for a zlib (deflate) compressed sector.
pub const COMPRESSION_ZLIB: u8 = 0x02;

/// What zlib inflation returns for the given stream: `None` exactly when the
/// bytes are not a well-formed stream. The result is a function of the input
/// bytes alone.
pub uninterp spec fn zlib_inflate(s: Seq<u8>) -> Option<Seq<u8>>;

/// Relies on miniz_oxide::inflate::decompress_to_vec_zlib: it inflates a
/// zlib stream, fails exactly on inputs that are not one, and its result
/// depends on the input bytes alone.
#[verifier::external_body]
fn inflate_zlib(data: &[u8]) -> (r: Option<Vec<u8>>)
    ensures
        (match r {
            Some(v) => zlib_inflate(data@) == Some(v@),
            None => zlib_inflate(data@) is None,
        }),
{
    miniz_oxide::inflate::decompress_to_vec_zlib(data).ok()
}

/// The decoding of one compressed sector: the algorithm byte, then the
/// payload. `None` stands for any failure.
pub open spec fn sector_decode(data: Seq<u8>) -> Option<Seq<u8>> {
    if data.len() == 0 {
        None
    } else if data[0] == COMPRESSION_ZLIB {
        zlib_inflate(data.skip(1))
    } else {
        None
    }
}

/// The error a failed sector decompression reports: a missing algorithm
/// byte, an unrecognized code, or a broken stream.
pub open spec fn sector_err(data: Seq<u8>) -> Error {
    if data.len() == 0 {
        Error::Truncated(1, 0)
    } else if data[0] != COMPRESSION_ZLIB {
        Error::UnsupportedCompression(data[0])
    } else {
        Error::CorruptData
    }
}

/// Decompresses one sector. The first byte selects the algorithm; only the
/// zlib code is supported, and any other code is reported as such.
pub fn decompress(data: &[u8]) -> (r: Result<Vec<u8>, Error>)
    ensures
        (r matches Ok(v) ==> sector_decode(data@) == Some(v@)),
        (r is Ok <==> sector_decode(data@) is Some),
        (r matches Err(e) ==> e == sector_err(data@)),
        data@.len() == 0 ==> r == Err::<Vec<u8>, Error>(Error::Truncated(1, 0)),
        data@.len() > 0 && data@[0] != COMPRESSION_ZLIB ==> r == Err::<Vec<u8>, Error>(
            Error::UnsupportedCompression(data@[0]),
        ),
        data@.len() > 0 && data@[0] == COMPRESSION_ZLIB && zlib_inflate(data@.skip(1)) is None
            ==> r == Err::<Vec<u8>, Error>(Error::CorruptData),
{
    if data.len() == 0 {
        return Err(Error::Truncated(1, 0));
    }
    let code = data[0];
    if code == COMPRESSION_ZLIB {
        let rest = slice_subrange(data, 1, data.len());
        proof {
            assert(rest@ =~= data@.skip(1));
        }
        match inflate_zlib(rest) {
            Some(v) => Ok(v),
            None => Err(Error::CorruptData),
        }
    } else {
        Err(Error::UnsupportedCompression(code))
    }
}

} // verus!
