//! Matching of regular expressions, and the rebuilding of a text around the
//! matches of one.
//!
//! The matching itself is the `regex` crate's. What this module knows of a
//! pattern and a text is their matches, in order, and the gaps between them;
//! everything that is then done to the matches is verified here.

use vstd::prelude::*;
use crate::text::chars_of;

verus! {

/// The strings of `strings`, each by its characters.
pub open spec fn views(strings: Seq<String>) -> Seq<Seq<char>> {
    strings.map_values(|s: String| s@)
}

/// The successive non-overlapping matches of `pattern` in `text`, in order;
/// `None` where `pattern` is no valid regular expression.
pub uninterp spec fn regex_matches(pattern: Seq<char>, text: Seq<char>) -> Option<Seq<Seq<char>>>;

/// The parts of `text` that no match of `pattern` covers, in order: what
/// stands before the first match, between two matches, and after the last;
/// `None` where `pattern` is no valid regular expression.
pub uninterp spec fn regex_gaps(pattern: Seq<char>, text: Seq<char>) -> Option<Seq<Seq<char>>>;

/// The matches of `pattern` in `text`.
///
/// Trusted: compiles `pattern` with `regex::Regex::new` and collects the
/// matched substrings that `Regex::find_iter` yields on `text`. The contract
/// only names that list; it claims that the list depends on nothing but the
/// pattern and the text, and that it is missing exactly where the pattern
/// does not compile.
#[verifier::external_body]
pub(crate) fn find_matches(pattern: &str, text: &str) -> (found: Option<Vec<String>>)
    ensures
        match found {
            Some(v) => regex_matches(pattern@, text@) == Some(views(v@)),
            None => regex_matches(pattern@, text@) is None,
        },
{
    match regex::Regex::new(pattern) {
        Ok(re) => Some(re.find_iter(text).map(|m| m.as_str().to_string()).collect()),
        Err(_) => None,
    }
}

/// The parts of `text` between the matches of `pattern`.
///
/// Trusted: compiles `pattern` with `regex::Regex::new` and collects the
/// substrings that `Regex::split` yields on `text`. The contract only names
/// that list; it claims that the list depends on nothing but the pattern and
/// the text, and that it is missing exactly where the pattern does not
/// compile.
#[verifier::external_body]
pub(crate) fn split_gaps(pattern: &str, text: &str) -> (found: Option<Vec<String>>)
    ensures
        match found {
            Some(v) => regex_gaps(pattern@, text@) == Some(views(v@)),
            None => regex_gaps(pattern@, text@) is None,
        },
{
    match regex::Regex::new(pattern) {
        Ok(re) => Some(re.split(text).map(|p| p.to_string()).collect()),
        Err(_) => None,
    }
}

/// The first `n` of `gaps`, each followed by the filling of the same index
/// where there is one.
pub open spec fn woven_prefix(gaps: Seq<Seq<char>>, fills: Seq<Seq<char>>, n: int) -> Seq<char>
    decreases n,
{
    if n <= 0 {
        Seq::empty()
    } else if n - 1 < fills.len() {
        woven_prefix(gaps, fills, n - 1) + gaps[n - 1] + fills[n - 1]
    } else {
        woven_prefix(gaps, fills, n - 1) + gaps[n - 1]
    }
}

/// The text that has `fills` in the places between `gaps`: the first gap, the
/// first filling, the second gap, and so on to the last gap.
pub open spec fn woven(gaps: Seq<Seq<char>>, fills: Seq<Seq<char>>) -> Seq<char> {
    woven_prefix(gaps, fills, gaps.len() as int)
}

/// Builds the text that has `fills` in the places between `gaps`.
pub fn weave(gaps: &[String], fills: &[String]) -> (out: Vec<char>)
    ensures
        out@ == woven(views(gaps@), views(fills@)),
{
    let mut out: Vec<char> = Vec::new();
    let mut i: usize = 0;
    while i < gaps.len()
        invariant
            i <= gaps.len(),
            out@ == woven_prefix(views(gaps@), views(fills@), i as int),
        decreases gaps.len() - i,
    {
        let gap = chars_of(gaps[i].as_str());
        out.extend_from_slice(gap.as_slice());
        if i < fills.len() {
            let fill = chars_of(fills[i].as_str());
            out.extend_from_slice(fill.as_slice());
        }
        i += 1;
    }
    out
}

} // verus!
