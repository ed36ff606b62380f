//! Well-formedness of payloads as text.

use vstd::prelude::*;
use vstd::string::StringSliceAdditionalSpecFns;
use vstd::utf8::valid_utf8;

verus! {

/// The error of `core::str::from_utf8`, carried through and never read.
#[verifier::external_type_specification]
#[verifier::external_body]
pub struct ExUtf8Error(core::str::Utf8Error);

/// Taken on trust of `core::str::from_utf8`: it accepts a byte slice exactly
/// when the bytes are a well-formed UTF-8 encoding, and the string slice it
/// then returns is made of those same bytes.
pub assume_specification[ core::str::from_utf8 ](v: &[u8]) -> (r: Result<
    &str,
    core::str::Utf8Error,
>)
    ensures
        r is Ok <==> valid_utf8(v@),
        r matches Ok(s) ==> s.spec_bytes() == v@,
;

/// Whether `payload` is well-formed UTF-8 text.
pub fn is_text(payload: &[u8]) -> (r: bool)
    ensures
        r == valid_utf8(payload@),
{
    core::str::from_utf8(payload).is_ok()
}

} // verus!
