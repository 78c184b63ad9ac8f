//! Values that come from the machine: the clock and the random generator.
//! Nothing is stated of them beyond their type.
use vstd::prelude::*;

verus! {

/// The current UTC time in RFC 3339 (`chrono::Utc::now` written with
/// `DateTime::to_rfc3339`); it depends on the clock, so nothing is stated.
#[verifier::external_body]
pub(crate) fn now_rfc3339() -> String {
    chrono::Utc::now().to_rfc3339()
}

/// A fresh random identifier (`uuid::Uuid::new_v4` written with
/// `to_string`); it depends on chance, so nothing is stated.
#[verifier::external_body]
pub(crate) fn new_uuid() -> String {
    uuid::Uuid::new_v4().to_string()
}

} // verus!
