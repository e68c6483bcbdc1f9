//! Case-insensitive substring search over text.

use vstd::prelude::*;
use crate::positions::positions;

verus! {

/// `needle` stands in `haystack` starting at position `at`.
pub open spec fn occurs_at(needle: Seq<char>, haystack: Seq<char>, at: int) -> bool {
    &&& 0 <= at
    &&& at + needle.len() <= haystack.len()
    &&& haystack.subrange(at, at + needle.len()) == needle
}

/// `needle` stands somewhere in `haystack` as a contiguous run of characters.
pub open spec fn occurs_in(needle: Seq<char>, haystack: Seq<char>) -> bool {
    exists|at: int| occurs_at(needle, haystack, at)
}

/// The lowercase form that `str::to_lowercase` gives a text.
pub uninterp spec fn lowercase_of(text: Seq<char>) -> Seq<char>;

/// `str::to_lowercase`: the result is the Unicode lowercase form of the text,
/// which depends on the characters of the text alone. Trusted, not proved.
#[verifier::external_body]
pub(crate) fn to_lowercase(text: &str) -> (lowered: String)
    ensures
        lowered@ == lowercase_of(text@),
{
    text.to_lowercase()
}

/// `str::contains` with a string pattern: true exactly when the pattern is a
/// contiguous part of the text. Trusted, not proved.
#[verifier::external_body]
pub(crate) fn contains(haystack: &str, needle: &str) -> (found: bool)
    ensures
        found == occurs_in(needle@, haystack@),
{
    haystack.contains(needle)
}

/// The texts behind a sequence of strings.
pub open spec fn texts_of(strings: Seq<String>) -> Seq<Seq<char>> {
    strings.map_values(|s: String| s@)
}

/// The test "`needle` occurs in the text at this position".
pub open spec fn holds_needle(texts: Seq<Seq<char>>, needle: Seq<char>) -> spec_fn(int) -> bool {
    |i: int| occurs_in(needle, texts[i])
}

/// The positions of the texts that contain `needle`, ascending.
pub fn matching_positions(texts: &Vec<String>, needle: &str) -> (hits: Vec<usize>)
    ensures
        hits@.map_values(|i: usize| i as int) == positions(
            texts@.len() as int,
            holds_needle(texts_of(texts@), needle@),
        ),
{
    let mut hits: Vec<usize> = Vec::new();
    let mut i: usize = 0;
    while i < texts.len()
        invariant
            i <= texts@.len(),
            hits@.map_values(|i: usize| i as int) == positions(
                i as int,
                holds_needle(texts_of(texts@), needle@),
            ),
        decreases texts@.len() - i,
    {
        let ghost before = hits@;
        if contains(texts[i].as_str(), needle) {
            hits.push(i);
            assert(hits@.map_values(|i: usize| i as int) == before.map_values(|i: usize| i as int).push(
                i as int,
            ));
        }
        i += 1;
    }
    hits
}

} // verus!
