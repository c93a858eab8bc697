use vstd::prelude::*;

verus! {

/// The snake_case form of a name, as the case conversion library writes
/// it: words split on case and separator boundaries, lowercased, joined
/// with underscores. The result depends on the characters alone.
pub uninterp spec fn snake_of(s: Seq<char>) -> Seq<char>;

/// Relies on convert_case's Casing::to_case with Case::Snake: a pure
/// function of the input text.
#[verifier::external_body]
pub fn to_snake_case(s: &str) -> (r: String)
    ensures
        r@ == snake_of(s@),
{
    convert_case::Casing::to_case(&s, convert_case::Case::Snake)
}

} // verus!
