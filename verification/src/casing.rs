//! Name casing. The conversions themselves come from the `convert_case`
//! crate; each is a pure function of the input string, so its result is
//! named by an uninterpreted spec function and every contract of the
//! library speaks of that name.
use vstd::prelude::*;

use convert_case::Casing;

verus! {

/// What `convert_case` returns for the upper-camel conversion of a string:
/// words split at separators and case transitions, each capitalized, joined
/// without a delimiter.
pub uninterp spec fn upper_camel_of(s: Seq<char>) -> Seq<char>;

/// What `convert_case` returns for the camel conversion of a string: as
/// upper camel, with the first word left in lower case.
pub uninterp spec fn camel_of(s: Seq<char>) -> Seq<char>;

/// What `convert_case` returns for the snake conversion of a string: words
/// split at separators and case transitions, lower-cased, joined by
/// underscores.
pub uninterp spec fn snake_of(s: Seq<char>) -> Seq<char>;

/// Converts a name to upper camel case.
///
/// Relies on `convert_case`'s `Casing::to_case` with `Case::UpperCamel`:
/// the result depends on the input characters alone.
#[verifier::external_body]
pub fn upper_camel(value: &str) -> (r: String)
    ensures
        r@ == upper_camel_of(value@),
{
    value.to_case(convert_case::Case::UpperCamel)
}

/// Converts a name to camel case.
///
/// Relies on `convert_case`'s `Casing::to_case` with `Case::Camel`: the
/// result depends on the input characters alone.
#[verifier::external_body]
pub fn camel(value: &str) -> (r: String)
    ensures
        r@ == camel_of(value@),
{
    value.to_case(convert_case::Case::Camel)
}

/// Converts a name to snake case.
///
/// Relies on `convert_case`'s `Casing::to_case` with `Case::Snake`: the
/// result depends on the input characters alone.
#[verifier::external_body]
pub fn snake(value: &str) -> (r: String)
    ensures
        r@ == snake_of(value@),
{
    value.to_case(convert_case::Case::Snake)
}

} // verus!
