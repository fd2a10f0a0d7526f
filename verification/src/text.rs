use vstd::prelude::*;
use vstd::utf8::*;

verus! {

/// The decimal digits of `n`, as text.
pub uninterp spec fn decimal_text(n: u64) -> Seq<char>;

/// Calls `String::from_utf8`. Believed, not proved: the call succeeds exactly on
/// valid UTF-8, and the text it then returns is what the bytes decode to.
#[verifier::external_body]
pub(crate) fn string_from_utf8(bytes: Vec<u8>) -> (r: Option<String>)
    ensures
        r is Some <==> valid_utf8(bytes@),
        r matches Some(s) ==> s@ == decode_utf8(bytes@),
{
    String::from_utf8(bytes).ok()
}

/// Calls `String::from_utf8_lossy`. Believed, not proved: on valid UTF-8 the
/// call returns what the bytes decode to. Of other input nothing is stated.
#[verifier::external_body]
pub(crate) fn string_from_utf8_lossy(bytes: &[u8]) -> (r: String)
    ensures
        valid_utf8(bytes@) ==> r@ == decode_utf8(bytes@),
{
    String::from_utf8_lossy(bytes).into_owned()
}

/// Calls `to_string` on a `u64`. Believed, not proved: the text is the number
/// in decimal, which depends on the number alone.
#[verifier::external_body]
pub(crate) fn decimal(n: u64) -> (r: String)
    ensures
        r@ == decimal_text(n),
{
    n.to_string()
}

} // verus!
