//! HTTP response status classification, through rocket's `Status`.
use vstd::prelude::*;

verus! {

/// Whether `code` is in the success class (2xx).
pub open spec fn spec_is_success(code: u16) -> bool {
    200 <= code && code < 300
}

/// The text rocket renders for a status: the code, a space and its reason
/// phrase.
pub uninterp spec fn status_text_of(code: u16) -> Seq<char>;

/// Relies on `rocket::http::Status::class` and `StatusClass::is_success`: the
/// class is chosen by `code / 100`, and `2` is `Success`.
#[verifier::external_body]
fn status_class_is_success(code: u16) -> (r: bool)
    ensures
        r == spec_is_success(code),
{
    rocket::http::Status::new(code).class().is_success()
}

/// Relies on rocket's `Display` for `Status` (`"{code} {reason}"`): the text
/// depends on the code alone and is never empty.
#[verifier::external_body]
fn status_text(code: u16) -> (r: String)
    ensures
        r@ == status_text_of(code),
        r@.len() > 0,
{
    rocket::http::Status::new(code).to_string()
}

/// Whether a response with status `code` counts as successful.
pub fn is_success_status(code: u16) -> (r: bool)
    ensures
        r == spec_is_success(code),
{
    status_class_is_success(code)
}

/// The message recorded for a response with status `code`.
pub fn status_message(code: u16) -> (r: String)
    ensures
        r@ == status_text_of(code),
{
    status_text(code)
}

} // verus!
