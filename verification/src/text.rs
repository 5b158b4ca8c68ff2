//! Comparisons of strings by their characters.

use vstd::prelude::*;

verus! {

/// `value`, or `default` where there is none.
pub open spec fn text_or(value: Option<Seq<char>>, default: Seq<char>) -> Seq<char> {
    match value {
        Some(s) => s,
        None => default,
    }
}

/// Whether two string slices hold the same characters.
pub fn str_eq(a: &str, b: &str) -> (r: bool)
    ensures
        r == (a@ == b@),
{
    let x = a.to_owned();
    let y = b.to_owned();
    x == y
}

/// Whether a string holds exactly the characters of `literal`.
pub fn string_is(s: &String, literal: &str) -> (r: bool)
    ensures
        r == (s@ == literal@),
{
    str_eq(s.as_str(), literal)
}

} // verus!
