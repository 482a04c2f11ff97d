//! Compression of journal segments with the `flate2` crate.

use crate::host::{outcome, IoError, IoErrorView, IoKind};
use flate2::read::GzDecoder;
use flate2::write::GzEncoder;
use flate2::Compression;
use std::io::{Read, Write};
use vstd::prelude::*;

verus! {

/// The gzip member that `flate2::write::GzEncoder` writes for some bytes at the
/// fast compression level.
pub uninterp spec fn gzipped(bytes: Seq<u8>) -> Result<Seq<u8>, IoErrorView>;

/// What `flate2::read::GzDecoder` reads from a gzip member, up to a limit.
pub uninterp spec fn gunzipped(data: Seq<u8>, limit: u64) -> Result<Seq<u8>, IoErrorView>;

/// The decoder gives back what the encoder was given.
pub open spec fn restores(bytes: Seq<u8>) -> bool {
    gzipped(bytes) matches Ok(data) ==> forall|limit: u64|
        bytes.len() <= limit ==> (#[trigger] gunzipped(data, limit) matches Ok(back) && back
            == bytes)
}

/// `flate2::write::GzEncoder` at the fast compression level, into memory. What it
/// writes is a gzip member of the bytes: the decoder gives them back, whole if its
/// limit is no smaller than their number.
#[verifier::external_body]
pub(crate) fn gzip(bytes: &[u8]) -> (r: Result<Vec<u8>, IoError>)
    ensures
        outcome(r) == gzipped(bytes@),
        r matches Ok(data) ==> forall|limit: u64|
            bytes@.len() <= limit ==> (#[trigger] gunzipped(data@, limit) matches Ok(back) && back
                == bytes@),
{
    let mut encoder = GzEncoder::new(Vec::new(), Compression::fast());
    encoder.write_all(bytes).and_then(|()| encoder.finish()).map_err(|error| IoError {
        kind: match error.kind() {
            std::io::ErrorKind::InvalidInput => IoKind::InvalidInput,
            std::io::ErrorKind::UnexpectedEof => IoKind::UnexpectedEof,
            _ => IoKind::Other,
        },
        message: error.to_string(),
    })
}

/// `flate2::read::GzDecoder` on data in memory, stopped by `Read::take` after
/// `limit` bytes, which the result cannot exceed.
#[verifier::external_body]
pub(crate) fn gunzip(data: &[u8], limit: u64) -> (r: Result<Vec<u8>, IoError>)
    ensures
        outcome(r) == gunzipped(data@, limit),
        r matches Ok(bytes) ==> bytes@.len() <= limit,
{
    let mut bytes = Vec::new();
    match GzDecoder::new(data).take(limit).read_to_end(&mut bytes) {
        Ok(_) => Ok(bytes),
        Err(error) => Err(IoError {
            kind: match error.kind() {
                std::io::ErrorKind::InvalidInput => IoKind::InvalidInput,
                std::io::ErrorKind::UnexpectedEof => IoKind::UnexpectedEof,
                _ => IoKind::Other,
            },
            message: error.to_string(),
        }),
    }
}

} // verus!
