//! JPEG quality validation.

use vstd::prelude::*;

verus! {

/// Whether `q` is an accepted JPEG quality: 1 up to and including 100.
pub open spec fn jpeg_quality_in_range(q: u8) -> bool {
    1 <= q && q <= 100
}

pub open spec fn jpeg_quality_message() -> Seq<char> {
    "JPEG Encoding Settings error: JPEG quality requires a number between 1 and 100 (inclusive)."@
}

/// Validates a JPEG quality: `Ok` with the same value when it lies in `1..=100`.
pub fn validate_jpeg_quality(quality: u8) -> (r: Result<u8, String>)
    ensures
        r matches Ok(v) ==> v == quality,
        r is Ok <==> jpeg_quality_in_range(quality),
        r matches Err(e) ==> e@ == jpeg_quality_message(),
{
    if 1 <= quality && quality <= 100 {
        Ok(quality)
    } else {
        Err(String::from_str("JPEG Encoding Settings error: JPEG quality requires a number between 1 and 100 (inclusive)."))
    }
}

} // verus!
