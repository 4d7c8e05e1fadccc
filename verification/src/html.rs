//! Decoding of HTML character references in a region's factbook.

use vstd::prelude::*;

verus! {

/// What `html_escape::decode_html_entities` gives for `s`: every exact named
/// or numeric character reference that ends with `;` replaced by what it
/// stands for.
pub uninterp spec fn html_entities_decoded(s: Seq<char>) -> Seq<char>;

/// `html_escape::decode_html_entities`, taken as an owned string.
/// Claimed: the result is `html_entities_decoded` of the argument, and a
/// text without any `&` comes back unchanged (the crate's search for a
/// reference only starts at an `&` and returns the input as it is when it
/// finds none).
#[verifier::external_body]
fn decode_html_entities(s: &str) -> (r: String)
    ensures
        r@ == html_entities_decoded(s@),
        !s@.contains('&') ==> r@ == s@,
{
    html_escape::decode_html_entities(s).into_owned()
}

/// A region's factbook text with its HTML entities decoded
/// (`"Hello &lt;world&gt;"` gives `"Hello <world>"`).
pub fn decode_factbook(s: &str) -> (r: String)
    ensures
        r@ == html_entities_decoded(s@),
        !s@.contains('&') ==> r@ == s@,
{
    decode_html_entities(s)
}

} // verus!
