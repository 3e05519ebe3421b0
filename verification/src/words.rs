//! Text handling for the command line: case folding and splitting a line
//! into words, both as the standard library does them.

use vstd::prelude::*;

verus! {

/// The lower-case form of a text, as `str::to_lowercase` gives it.
pub uninterp spec fn lowercase(s: Seq<char>) -> Seq<char>;

/// The words of a text, as `str::split_whitespace` gives them: its maximal
/// runs of characters that are not white space, in order.
pub uninterp spec fn words_of(s: Seq<char>) -> Seq<Seq<char>>;

/// The texts of a run of strings, in order.
pub open spec fn texts(strings: Seq<String>) -> Seq<Seq<char>> {
    strings.map_values(|s: String| s@)
}

/// Calls `str::to_lowercase`, which folds every character to lower case by
/// the Unicode rules that the standard library carries. The result depends
/// on the text alone; the contract only gives it its name.
#[verifier::external_body]
pub(crate) fn to_lowercase(s: &str) -> (res: String)
    ensures
        res@ == lowercase(s@),
{
    s.to_lowercase()
}

/// Calls `str::split_whitespace` and copies each word it yields into a
/// string. The result depends on the text alone; the contract only gives it
/// its name.
#[verifier::external_body]
pub(crate) fn split_words(s: &str) -> (res: Vec<String>)
    ensures
        texts(res@) == words_of(s@),
{
    s.split_whitespace().map(|w| w.to_string()).collect()
}

/// Whether two texts are the same, character by character.
pub fn same_text(a: &str, b: &str) -> (same: bool)
    ensures
        same == (a@ == b@),
{
    let left = a.to_owned();
    let right = b.to_owned();
    left == right
}

/// The lower-case forms of `strings`, in order.
pub fn lowercase_all(strings: &Vec<String>) -> (res: Vec<String>)
    ensures
        texts(res@) == texts(strings@).map_values(|s: Seq<char>| lowercase(s)),
{
    let mut res: Vec<String> = Vec::new();
    let mut i: usize = 0;
    while i < strings.len()
        invariant
            i <= strings.len(),
            res@.len() == i,
            forall|j: int| 0 <= j < i ==> (#[trigger] res@[j])@ == lowercase(strings@[j]@),
        decreases strings.len() - i,
    {
        let lowered = to_lowercase(strings[i].as_str());
        res.push(lowered);
        i = i + 1;
    }
    assert(texts(res@) =~= texts(strings@).map_values(|s: Seq<char>| lowercase(s)));
    res
}

} // verus!
