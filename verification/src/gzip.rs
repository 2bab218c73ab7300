//! Maybe-compressed sources: gzip detection by file extension and
//! decompression, decided once per source before any record is parsed.

use vstd::prelude::*;

use crate::validators::{DOT_BYTE, LOWER_G_BYTE, LOWER_Z_BYTE};

verus! {

/// A source that announced gzip by its extension but could not be decoded.
#[derive(Clone, Copy, Debug, PartialEq, Eq, Structural)]
pub struct DecompressError;

/// What decompressing a gzip byte string yields. Decoding is a function of
/// the input bytes alone, so the result carries a name rather than a
/// re-statement of the format.
pub uninterp spec fn gunzip_of(s: Seq<u8>) -> Seq<u8>;

/// Relies on flate2's `bufread::MultiGzDecoder` driven by
/// `Read::read_to_end`: it decodes every gzip member of the input, and the
/// decoded bytes are a function of the input bytes alone. Input that is not
/// a well-formed gzip stream is an error.
#[verifier::external_body]
fn gunzip(data: &[u8]) -> (r: Result<Vec<u8>, DecompressError>)
    ensures
        r matches Ok(v) ==> v@ == gunzip_of(data@),
{
    let mut decoder = flate2::bufread::MultiGzDecoder::new(data);
    let mut out: Vec<u8> = Vec::new();
    match std::io::Read::read_to_end(&mut decoder, &mut out) {
        Ok(_) => Ok(out),
        Err(_) => Err(DecompressError),
    }
}

/// The bytes of the `.gz` suffix.
pub open spec fn gz_suffix() -> Seq<u8> {
    seq![DOT_BYTE, LOWER_G_BYTE, LOWER_Z_BYTE]
}

/// Whether a source name announces gzip: it ends in `.gz`.
pub open spec fn has_gz_extension(name: Seq<u8>) -> bool {
    name.len() >= 3 && name.subrange(name.len() - 3, name.len() as int) == gz_suffix()
}

/// Decides [`has_gz_extension`].
pub fn is_gzip_path(name: &[u8]) -> (r: bool)
    ensures
        r == has_gz_extension(name@),
{
    let n = name.len();
    proof {
        if name@.len() >= 3 {
            let tail = name@.subrange(name@.len() - 3, name@.len() as int);
            assert(tail[0] == name@[name@.len() - 3]);
            assert(tail[1] == name@[name@.len() - 2]);
            assert(tail[2] == name@[name@.len() - 1]);
        }
    }
    if n >= 3 && name[n - 3] == DOT_BYTE && name[n - 2] == LOWER_G_BYTE && name[n - 1]
        == LOWER_Z_BYTE {
        proof {
            assert(name@.subrange(name@.len() - 3, name@.len() as int) =~= gz_suffix());
        }
        true
    } else {
        false
    }
}

/// Turns one raw source into record bytes: a source whose name ends in `.gz`
/// is decompressed, any other is passed through unchanged. The decision is
/// made once per source, never per record.
pub fn decode_source(name: &[u8], raw: Vec<u8>) -> (r: Result<Vec<u8>, DecompressError>)
    ensures
        has_gz_extension(name@) ==> (r matches Ok(v) ==> v@ == gunzip_of(raw@)),
        !has_gz_extension(name@) ==> (r matches Ok(v) && v@ == raw@),
{
    if is_gzip_path(name) {
        gunzip(raw.as_slice())
    } else {
        Ok(raw)
    }
}

} // verus!
