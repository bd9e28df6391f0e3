//! The case converter: rewrites an identifier into a requested naming
//! convention, or passes it through unchanged when none is requested. An
//! unrecognized style token is a configuration defect and is excluded up
//! front rather than converted.
use vstd::prelude::*;
use crate::text::str_eq;

verus! {

/// What heck's kebab-case conversion of a string returns; a function of the
/// input characters alone.
pub uninterp spec fn kebab_of(s: Seq<char>) -> Seq<char>;

/// What heck's snake-case conversion of a string returns; a function of the
/// input characters alone.
pub uninterp spec fn snake_of(s: Seq<char>) -> Seq<char>;

/// Relies on heck's `KebabCase` impl for `str`: the hyphen-separated
/// lowercase form of the input, determined by its characters alone.
#[verifier::external_body]
fn to_kebab(s: &str) -> (r: String)
    ensures
        r@ == kebab_of(s@),
{
    heck::KebabCase::to_kebab_case(s)
}

/// Relies on heck's `SnakeCase` impl for `str`: the underscore-separated
/// lowercase form of the input, determined by its characters alone.
#[verifier::external_body]
fn to_snake(s: &str) -> (r: String)
    ensures
        r@ == snake_of(s@),
{
    heck::SnakeCase::to_snake_case(s)
}

/// The style tokens the converter understands: none, hyphen-style, or
/// underscore-style.
pub open spec fn style_ok(case: Option<Seq<char>>) -> bool {
    match case {
        Option::None => true,
        Option::Some(c) => c == "kebab-case"@ || c == "snake_case"@,
    }
}

/// The converted identifier. Only meaningful under `style_ok`; the last arm
/// is never reached by the converter.
pub open spec fn spec_change_case(case: Option<Seq<char>>, value: Seq<char>) -> Seq<char> {
    match case {
        Option::None => value,
        Option::Some(c) => if c == "kebab-case"@ {
            kebab_of(value)
        } else if c == "snake_case"@ {
            snake_of(value)
        } else {
            Seq::empty()
        },
    }
}

/// Rewrites `value` into the requested naming convention; with no style the
/// identifier passes through unchanged.
pub fn change_case(case: Option<&str>, value: String) -> (r: String)
    requires
        style_ok(case.deep_view()),
    ensures
        r@ == spec_change_case(case.deep_view(), value@),
{
    match case {
        Option::None => value,
        Option::Some(c) => {
            if str_eq(c, "kebab-case") {
                to_kebab(value.as_str())
            } else {
                to_snake(value.as_str())
            }
        },
    }
}

} // verus!
