//! Small text helpers shared by the schema model and the DDL renderer.

use vstd::prelude::*;

verus! {

/// Relies on `<str as PartialEq>::eq`: two string slices compare equal exactly
/// when they hold the same characters.
#[verifier::external_body]
pub(crate) fn str_eq(a: &str, b: &str) -> (r: bool)
    ensures
        r == (a@ == b@),
{
    a == b
}

/// An owned copy of a string slice.
pub(crate) fn owned(s: &str) -> (r: String)
    ensures
        r@ == s@,
{
    String::from_str(s)
}

} // verus!
