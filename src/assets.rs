//! The bundled bypass list, shipped compressed.
use vstd::prelude::*;

verus! {

/// What zstd's frame decoder makes of `compressed`: the concatenated content
/// of its frames, or `None` where it is not a valid zstd stream.
pub uninterp spec fn zstd_decoded(compressed: Seq<u8>) -> Option<Seq<u8>>;

pub open spec fn opt_bytes_view(r: Option<Vec<u8>>) -> Option<Seq<u8>> {
    match r {
        Some(v) => Some(v@),
        None => None,
    }
}

/// Relies on `zstd::stream::decode_all` (zstd 0.13): it decodes every frame of
/// the input and fails on malformed data; the result depends on the bytes alone.
#[verifier::external_body]
fn zstd_decode_all(compressed: &[u8]) -> (r: Option<Vec<u8>>)
    ensures
        opt_bytes_view(r) == zstd_decoded(compressed@),
{
    zstd::stream::decode_all(compressed).ok()
}

/// Decompresses the bundled bypass list. `None` where the data is not a valid
/// zstd stream; the launch then goes on without the list.
pub fn decode_bypass_list(compressed: &Vec<u8>) -> (r: Option<Vec<u8>>)
    ensures
        opt_bytes_view(r) == zstd_decoded(compressed@),
{
    zstd_decode_all(compressed.as_slice())
}

} // verus!
