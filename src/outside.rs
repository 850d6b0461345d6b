use vstd::prelude::*;
use crate::error::DemoParserError;

verus! {

/// snap's error type, returned by its decoder and mapped to `DecompressionFailed`.
#[verifier::external_type_specification]
#[verifier::external_body]
pub struct ExSnapError(snap::Error);

/// What raw Snappy decompression makes of a block, or `None` where the block is not valid.
pub uninterp spec fn snappy_raw_decoded(b: Seq<u8>) -> Option<Seq<u8>>;

/// Relies on `snap::raw::Decoder::decompress_vec`: the decompressed block, or an error for
/// an invalid one; an empty input is always an error.
#[verifier::external_body]
fn snappy_decompress_vec(b: &Vec<u8>) -> (r: Result<Vec<u8>, snap::Error>)
    ensures
        match r {
            Ok(v) => snappy_raw_decoded(b@) == Some(v@),
            Err(_) => snappy_raw_decoded(b@) is None,
        },
        b@.len() == 0 ==> r is Err,
{
    snap::raw::Decoder::new().decompress_vec(b)
}

/// Decompresses a raw Snappy block.
pub fn decompress(b: &Vec<u8>) -> (r: Result<Vec<u8>, DemoParserError>)
    ensures
        match snappy_raw_decoded(b@) {
            Some(v) => r is Ok && r->Ok_0@ == v,
            None => r == Err::<Vec<u8>, DemoParserError>(DemoParserError::DecompressionFailed),
        },
        b@.len() == 0 ==> r == Err::<Vec<u8>, DemoParserError>(
            DemoParserError::DecompressionFailed,
        ),
{
    match snappy_decompress_vec(b) {
        Ok(v) => Ok(v),
        Err(_) => Err(DemoParserError::DecompressionFailed),
    }
}

/// The characters of an ASCII byte string.
pub open spec fn ascii_chars(b: Seq<u8>) -> Seq<char> {
    b.map_values(|c: u8| c as char)
}

pub open spec fn all_ascii(b: Seq<u8>) -> bool {
    forall|i: int| 0 <= i < b.len() ==> #[trigger] b[i] < 128
}

/// The text that lossy UTF-8 decoding makes of some bytes.
pub uninterp spec fn utf8_lossy_of(b: Seq<u8>) -> Seq<char>;

/// Relies on `String::from_utf8_lossy`: valid UTF-8, ASCII in particular, is kept as it is;
/// other sequences are replaced.
#[verifier::external_body]
pub(crate) fn lossy_string(b: &Vec<u8>) -> (r: String)
    ensures
        r@ == utf8_lossy_of(b@),
        all_ascii(b@) ==> r@ == ascii_chars(b@),
{
    String::from_utf8_lossy(b).into_owned()
}

} // verus!
