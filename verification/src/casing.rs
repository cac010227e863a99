//! Case conversion for generated identifiers.  The conversions
//! themselves are done by the `convert_case` crate; their results are
//! named, not restated.

use vstd::prelude::*;

use convert_case::{Case, Casing};

verus! {

/// The snake_case form of a name, as `convert_case` computes it.
pub uninterp spec fn snake_of(s: Seq<char>) -> Seq<char>;

/// The PascalCase form of a name, as `convert_case` computes it.
pub uninterp spec fn pascal_of(s: Seq<char>) -> Seq<char>;

/// Relies on convert_case's `Casing::to_case` with `Case::Snake`: the
/// result is a function of the input characters alone.
#[verifier::external_body]
pub(crate) fn to_snake(s: &String) -> (r: String)
    ensures
        r@ == snake_of(s@),
{
    s.to_case(Case::Snake)
}

/// Relies on convert_case's `Casing::to_case` with `Case::Pascal`: the
/// result is a function of the input characters alone.
#[verifier::external_body]
pub(crate) fn to_pascal(s: &String) -> (r: String)
    ensures
        r@ == pascal_of(s@),
{
    s.to_case(Case::Pascal)
}

} // verus!
