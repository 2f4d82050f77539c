//! Conversions between strings and character vectors, and the few character
//! classes of the standard library that the rest of the crate relies on.

use vstd::prelude::*;

verus! {

/// Appends one character to a string.
///
/// Trusted: stands for `String::push`, which the standard library documents as
/// appending the given character to the end of the string.
#[verifier::external_body]
pub(crate) fn push_char(s: &mut String, c: char)
    ensures
        final(s)@ == old(s)@.push(c),
{
    s.push(c)
}

/// Whether `c` has the Unicode property White_Space.
pub uninterp spec fn is_whitespace(c: char) -> bool;

/// Tells whether a character is whitespace.
///
/// Trusted: stands for `char::is_whitespace`, which the standard library
/// documents as true exactly for the characters with the Unicode property
/// White_Space. The contract names that set and says nothing of its members.
#[verifier::external_body]
pub(crate) fn char_is_whitespace(c: char) -> (b: bool)
    ensures
        b == is_whitespace(c),
{
    c.is_whitespace()
}

/// Whether `c` has the Unicode property Alphabetic.
pub uninterp spec fn is_alphabetic(c: char) -> bool;

/// Tells whether a character is alphabetic.
///
/// Trusted: stands for `char::is_alphabetic`, which the standard library
/// documents as true exactly for the characters with the Unicode property
/// Alphabetic. The contract names that set and says nothing of its members.
#[verifier::external_body]
pub(crate) fn char_is_alphabetic(c: char) -> (b: bool)
    ensures
        b == is_alphabetic(c),
{
    c.is_alphabetic()
}

/// The lowercase form of `s` under the Unicode lowercase mapping.
pub uninterp spec fn lowercased(s: Seq<char>) -> Seq<char>;

/// The lowercase form of a string.
///
/// Trusted: stands for `str::to_lowercase`, which the standard library
/// documents as the lowercase equivalent of the string under the Unicode
/// property Lowercase. The contract names that string and says nothing of
/// its characters.
#[verifier::external_body]
pub(crate) fn to_lowercase(s: &str) -> (out: String)
    ensures
        out@ == lowercased(s@),
{
    s.to_lowercase()
}

/// The number of characters at the start of `s` before its first whitespace.
pub open spec fn word_len(s: Seq<char>) -> nat
    decreases s.len(),
{
    if s.len() == 0 || is_whitespace(s[0]) {
        0
    } else {
        1 + word_len(s.skip(1))
    }
}

/// The words of `s`: its maximal runs of characters that are not whitespace,
/// in order.
pub open spec fn words(s: Seq<char>) -> Seq<Seq<char>>
    decreases s.len(),
{
    if s.len() == 0 {
        Seq::empty()
    } else {
        let n = word_len(s);
        if 0 < n <= s.len() {
            seq![s.take(n as int)] + words(s.skip(n as int))
        } else {
            words(s.skip(1))
        }
    }
}

/// `s` without the whitespace at its start.
pub open spec fn trimmed_start(s: Seq<char>) -> Seq<char>
    decreases s.len(),
{
    if s.len() > 0 && is_whitespace(s[0]) {
        trimmed_start(s.skip(1))
    } else {
        s
    }
}

/// `s` without the whitespace at its end.
pub open spec fn trimmed_end(s: Seq<char>) -> Seq<char>
    decreases s.len(),
{
    if s.len() > 0 && is_whitespace(s.last()) {
        trimmed_end(s.drop_last())
    } else {
        s
    }
}

/// `s` without the whitespace at its start and at its end.
pub open spec fn trimmed(s: Seq<char>) -> Seq<char> {
    trimmed_end(trimmed_start(s))
}

/// The characters of `s`, in order.
pub fn chars_of(s: &str) -> (out: Vec<char>)
    ensures
        out@ == s@,
{
    let mut out: Vec<char> = Vec::new();
    for c in it: s.chars()
        invariant
            out@ == it.seq().take(it.index() as int),
    {
        out.push(c);
    }
    out
}

/// The string made of `chars`, in order.
pub fn string_of(chars: &[char]) -> (out: String)
    ensures
        out@ == chars@,
{
    let mut out = String::new();
    let mut i: usize = 0;
    while i < chars.len()
        invariant
            i <= chars.len(),
            out@ == chars@.take(i as int),
        decreases chars.len() - i,
    {
        push_char(&mut out, chars[i]);
        i += 1;
    }
    out
}

/// The characters of `s` from `from` up to `to`.
pub(crate) fn copy_chars(s: &[char], from: usize, to: usize) -> (out: Vec<char>)
    requires
        from <= to <= s.len(),
    ensures
        out@ == s@.subrange(from as int, to as int),
{
    let mut out: Vec<char> = Vec::new();
    let mut i: usize = from;
    while i < to
        invariant
            from <= i <= to <= s.len(),
            out@ == s@.subrange(from as int, i as int),
        decreases to - i,
    {
        out.push(s[i]);
        proof {
            assert(out@ =~= s@.subrange(from as int, i + 1));
        }
        i += 1;
    }
    out
}

/// Removes the whitespace at the start and at the end of `s`.
pub fn trim_chars(s: &[char]) -> (out: Vec<char>)
    ensures
        out@ == trimmed(s@),
{
    let mut a: usize = 0;
    proof {
        assert(s@.skip(0) =~= s@);
    }
    while a < s.len() && char_is_whitespace(s[a])
        invariant
            a <= s.len(),
            trimmed_start(s@) == trimmed_start(s@.skip(a as int)),
        decreases s.len() - a,
    {
        proof {
            assert(s@.skip(a as int).skip(1) =~= s@.skip(a + 1));
        }
        a += 1;
    }
    let ghost kept = s@.skip(a as int);
    assert(trimmed_start(s@) == kept);
    let mut b: usize = s.len();
    proof {
        assert(s@.subrange(a as int, b as int) =~= kept);
    }
    while b > a && char_is_whitespace(s[b - 1])
        invariant
            a <= b <= s.len(),
            trimmed_end(kept) == trimmed_end(s@.subrange(a as int, b as int)),
        decreases b,
    {
        proof {
            assert(s@.subrange(a as int, b as int).drop_last() =~= s@.subrange(a as int, b - 1));
        }
        b -= 1;
    }
    copy_chars(s, a, b)
}

/// Splits `s` into its words.
pub fn split_words(s: &[char]) -> (out: Vec<Vec<char>>)
    ensures
        out@.map_values(|w: Vec<char>| w@) == words(s@),
{
    let mut out: Vec<Vec<char>> = Vec::new();
    let mut i: usize = 0;
    proof {
        assert(s@.skip(0) =~= s@);
        assert(out@.map_values(|w: Vec<char>| w@) + words(s@) =~= words(s@));
    }
    while i < s.len()
        invariant
            i <= s.len(),
            out@.map_values(|w: Vec<char>| w@) + words(s@.skip(i as int)) == words(s@),
        decreases s.len() - i,
    {
        let ghost rest = s@.skip(i as int);
        let ghost before = out@.map_values(|w: Vec<char>| w@);
        let mut j: usize = i;
        proof {
            assert(rest.skip(0) =~= rest);
        }
        while j < s.len() && !char_is_whitespace(s[j])
            invariant
                i <= j <= s.len(),
                rest == s@.skip(i as int),
                word_len(rest) == (j - i) + word_len(rest.skip(j - i)),
            decreases s.len() - j,
        {
            proof {
                assert(rest.skip(j - i)[0] == s@[j as int]);
                assert(rest.skip(j - i).skip(1) =~= rest.skip(j + 1 - i));
            }
            j += 1;
        }
        proof {
            assert(word_len(rest) == j - i) by {
                if j < s.len() {
                    assert(rest.skip(j - i)[0] == s@[j as int]);
                }
            }
        }
        if j > i {
            let word = copy_chars(s, i, j);
            out.push(word);
            proof {
                assert(word@ =~= rest.take(j - i));
                assert(rest.skip(j - i) =~= s@.skip(j as int));
                assert(out@.map_values(|w: Vec<char>| w@) =~= before + seq![rest.take(j - i)]);
                assert(out@.map_values(|w: Vec<char>| w@) + words(rest.skip(j - i)) =~= before + (
                seq![rest.take(j - i)] + words(rest.skip(j - i))));
            }
            i = j;
        } else {
            proof {
                assert(rest.skip(1) =~= s@.skip(i + 1));
            }
            i += 1;
        }
    }
    proof {
        assert(s@.skip(i as int).len() == 0);
    }
    out
}

} // verus!
