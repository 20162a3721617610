//! Whether bytes are UTF-8 text.
use vstd::prelude::*;

verus! {

/// Whether `b` is valid UTF-8 text.
pub uninterp spec fn utf8_valid(b: Seq<u8>) -> bool;

/// Whether `b` is valid UTF-8, as `core::str::from_utf8` decides: the
/// answer is named `utf8_valid`; of it only this is stated, which UTF-8 itself
/// fixes: no bytes at all are valid, and a single byte is valid exactly when
/// it is below 0x80.
#[verifier::external_body]
pub(crate) fn is_utf8(b: &[u8]) -> (r: bool)
    ensures
        r == utf8_valid(b@),
        b@.len() == 0 ==> r,
        b@.len() == 1 ==> (r == (b@[0] < 0x80)),
{
    core::str::from_utf8(b).is_ok()
}

} // verus!
