use vstd::prelude::*;
use vstd::utf8::*;

verus! {

/// Relies on `std::str::from_utf8`: it succeeds exactly on valid UTF-8,
/// and the text it returns is the one those bytes encode.
#[verifier::external_body]
pub(crate) fn utf8_text(b: &[u8]) -> (r: Option<String>)
    ensures
        match r {
            Some(s) => valid_utf8(b@) && s@ == decode_utf8(b@),
            None => !valid_utf8(b@),
        },
{
    match std::str::from_utf8(b) {
        Ok(s) => Some(s.to_owned()),
        Err(_) => None,
    }
}

} // verus!
