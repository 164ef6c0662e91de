//! The spelling of emitted identifiers.

use convert_case::{Case, Casing};
use vstd::prelude::*;

verus! {

/// A convention for spelling an identifier that is made of several words.
#[derive(PartialEq, Eq, Structural, Debug, Copy, Clone)]
pub enum NameCase {
    /// `two_words`
    Snake,
    /// `TwoWords`
    UpperCamel,
    /// `TWO_WORDS`, for constants
    ScreamingSnake,
    /// `TWO_WORDS`, for enum members of the scripting layer
    UpperSnake,
}

/// The spelling of `name` under `case`.
pub uninterp spec fn case_converted(name: Seq<char>, case: NameCase) -> Seq<char>;

/// `convert_case::Casing::to_case`: splits the name into words at its word boundaries and
/// joins them again as the convention asks.  The result depends on the name and the
/// convention alone; nothing more is claimed of it here.
#[verifier::external_body]
pub(crate) fn to_case(name: &str, case: NameCase) -> (r: String)
    ensures
        r@ == case_converted(name@, case),
{
    let case = match case {
        NameCase::Snake => Case::Snake,
        NameCase::UpperCamel => Case::UpperCamel,
        NameCase::ScreamingSnake => Case::ScreamingSnake,
        NameCase::UpperSnake => Case::UpperSnake,
    };
    name.to_case(case)
}

/// The name of a function, a field or a module.
pub fn snake_name(name: &str) -> (r: String)
    ensures
        r@ == case_converted(name@, NameCase::Snake),
{
    to_case(name, NameCase::Snake)
}

/// The name of a type.
pub fn camel_name(name: &str) -> (r: String)
    ensures
        r@ == case_converted(name@, NameCase::UpperCamel),
{
    to_case(name, NameCase::UpperCamel)
}

/// The name of a constant.
pub fn constant_name(name: &str) -> (r: String)
    ensures
        r@ == case_converted(name@, NameCase::ScreamingSnake),
{
    to_case(name, NameCase::ScreamingSnake)
}

/// The name of an enum member in the scripting layer.
pub fn member_name(name: &str) -> (r: String)
    ensures
        r@ == case_converted(name@, NameCase::UpperSnake),
{
    to_case(name, NameCase::UpperSnake)
}

} // verus!
