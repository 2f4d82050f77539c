//! Normalisation of raw text before it is transcribed.
//!
//! The text passes through six steps, in this order: typographic punctuation
//! becomes plain; runs of capitals are spelled out letter by letter; a space
//! parts a small letter from a capital that follows it; years and the first
//! four ordinals are written in words; hyphen, slash and plus stand free
//! between spaces; whitespace collapses to single spaces and is trimmed.
//!
//! Where a step looks for words, years or whitespace it does so by a regular
//! expression. The matches are the `regex` crate's; what replaces each match
//! is computed here.

use vstd::prelude::*;
use crate::pattern::{find_matches, regex_gaps, regex_matches, split_gaps, views, weave, woven};
use crate::rewrite::{replace_all, replace_chars};
use crate::text::{chars_of, string_of, trim_chars, trimmed};

verus! {

/// A run of two or more capital letters that stands as a word of its own.
pub const ACRONYM: &'static str = "\\b([A-Z]{2,})\\b";

/// A small letter directly followed by a capital.
pub const CAMEL_CASE: &'static str = "([a-z])([A-Z])";

/// A number of four digits that begins with 19 or 20 and stands as a word of
/// its own.
pub const YEAR: &'static str = "\\b(19|20)(\\d{2})\\b";

/// The ordinal abbreviations that are written out.
pub const FIRST: &'static str = "\\b1st\\b";

pub const SECOND: &'static str = "\\b2nd\\b";

pub const THIRD: &'static str = "\\b3rd\\b";

pub const FOURTH: &'static str = "\\b4th\\b";

/// A run of whitespace.
pub const WHITESPACE: &'static str = "\\s+";

/// What is written in place of a match.
pub enum Rewrite {
    /// The letters of the match, a space between every two of them.
    SpaceLetters,
    /// The two letters of the match, a space between them.
    SplitCamel,
    /// The year that the match writes, in words.
    SpellYear,
    /// A fixed text.
    Word(&'static str),
}

/// One rewriting step: the pattern to look for and what to write in place of
/// each of its matches.
pub struct Step {
    pub pattern: &'static str,
    pub rewrite: Rewrite,
}

/// The plain character that stands for `c`: curly quotes become straight
/// ones, en and em dashes become hyphens, the no-break space becomes a space.
/// Other characters stand for themselves.
pub open spec fn plain_char(c: char) -> char {
    if c == '\u{201C}' || c == '\u{201D}' {
        '"'
    } else if c == '\u{2018}' || c == '\u{2019}' {
        '\''
    } else if c == '\u{2013}' || c == '\u{2014}' {
        '-'
    } else if c == '\u{00A0}' {
        ' '
    } else {
        c
    }
}

/// `text` with every character replaced by its plain character.
pub open spec fn plain_punctuation(text: Seq<char>) -> Seq<char> {
    text.map_values(|c: char| plain_char(c))
}

/// The English name of a decimal digit; empty for any other character.
pub open spec fn digit_name(c: char) -> Seq<char> {
    if c == '0' {
        "zero"@
    } else if c == '1' {
        "one"@
    } else if c == '2' {
        "two"@
    } else if c == '3' {
        "three"@
    } else if c == '4' {
        "four"@
    } else if c == '5' {
        "five"@
    } else if c == '6' {
        "six"@
    } else if c == '7' {
        "seven"@
    } else if c == '8' {
        "eight"@
    } else if c == '9' {
        "nine"@
    } else {
        Seq::empty()
    }
}

/// The names of the digits of `s`, with one space between every two names.
pub open spec fn spelled_digits(s: Seq<char>) -> Seq<char>
    decreases s.len(),
{
    if s.len() == 0 {
        Seq::empty()
    } else if s.len() == 1 {
        digit_name(s[0])
    } else {
        spelled_digits(s.drop_last()) + seq![' '] + digit_name(s.last())
    }
}

/// The last two digits of a year in words: nine remainders have a reading of
/// their own, every other one is spelled digit by digit.
pub open spec fn two_digit_words(yy: Seq<char>) -> Seq<char> {
    if yy.len() == 2 && yy[0] == '0' && yy[1] == '0' {
        "hundred"@
    } else if yy.len() == 2 && yy[0] == '0' && yy[1] == '1' {
        "oh one"@
    } else if yy.len() == 2 && yy[0] == '0' && yy[1] == '2' {
        "oh two"@
    } else if yy.len() == 2 && yy[0] == '1' && yy[1] == '0' {
        "ten"@
    } else if yy.len() == 2 && yy[0] == '1' && yy[1] == '1' {
        "eleven"@
    } else if yy.len() == 2 && yy[0] == '1' && yy[1] == '2' {
        "twelve"@
    } else if yy.len() == 2 && yy[0] == '2' && yy[1] == '0' {
        "twenty"@
    } else if yy.len() == 2 && yy[0] == '2' && yy[1] == '1' {
        "twenty one"@
    } else if yy.len() == 2 && yy[0] == '2' && yy[1] == '2' {
        "twenty two"@
    } else {
        spelled_digits(yy)
    }
}

/// The characters of `s` with one space between every two of them.
pub open spec fn spaced_letters(s: Seq<char>) -> Seq<char>
    decreases s.len(),
{
    if s.len() <= 1 {
        s
    } else {
        spaced_letters(s.drop_last()) + seq![' ', s.last()]
    }
}

/// A match of two characters with a space between them. Any other text is
/// left as it is.
pub open spec fn camel_split(m: Seq<char>) -> Seq<char> {
    if m.len() == 2 {
        seq![m[0], ' ', m[1]]
    } else {
        m
    }
}

/// A match of four characters read as a year: `nineteen` where it begins with
/// 19 and `twenty` where it does not, a space, and the reading of its last
/// two characters. Any other text is left as it is.
pub open spec fn year_words(m: Seq<char>) -> Seq<char> {
    if m.len() == 4 {
        (if m[0] == '1' && m[1] == '9' {
            "nineteen"@
        } else {
            "twenty"@
        }) + seq![' '] + two_digit_words(m.skip(2))
    } else {
        m
    }
}

/// What `rewrite` writes in place of the match `m`.
pub open spec fn rewritten(rewrite: Rewrite, m: Seq<char>) -> Seq<char> {
    match rewrite {
        Rewrite::SpaceLetters => spaced_letters(m),
        Rewrite::SplitCamel => camel_split(m),
        Rewrite::SpellYear => year_words(m),
        Rewrite::Word(w) => w@,
    }
}

/// The text that has the gaps `gaps` and, between them, what `rewrite`
/// writes in place of the matches `found`.
pub open spec fn refilled(gaps: Seq<Seq<char>>, found: Seq<Seq<char>>, rewrite: Rewrite) -> Seq<
    char,
> {
    woven(gaps, found.map_values(|m: Seq<char>| rewritten(rewrite, m)))
}

/// `text` with every match of `pattern` rewritten by `rewrite`; `None` where
/// `pattern` is no valid regular expression.
pub open spec fn step_result(pattern: Seq<char>, rewrite: Rewrite, text: Seq<char>) -> Option<
    Seq<char>,
> {
    match (regex_gaps(pattern, text), regex_matches(pattern, text)) {
        (Some(gaps), Some(found)) => Some(refilled(gaps, found, rewrite)),
        _ => None,
    }
}

/// `text` after the first `n` of `steps`, each applied to the result of the
/// one before; `None` where one of their patterns is no valid regular
/// expression.
pub open spec fn after_steps(steps: Seq<Step>, n: int, text: Seq<char>) -> Option<Seq<char>>
    decreases n,
{
    if n <= 0 {
        Some(text)
    } else {
        match after_steps(steps, n - 1, text) {
            Some(t) => step_result(steps[n - 1].pattern@, steps[n - 1].rewrite, t),
            None => None,
        }
    }
}

/// The steps that rewrite words: acronyms, camel case, years, ordinals.
pub open spec fn word_steps() -> Seq<Step> {
    seq![
        Step { pattern: ACRONYM, rewrite: Rewrite::SpaceLetters },
        Step { pattern: CAMEL_CASE, rewrite: Rewrite::SplitCamel },
        Step { pattern: YEAR, rewrite: Rewrite::SpellYear },
        Step { pattern: FIRST, rewrite: Rewrite::Word("first") },
        Step { pattern: SECOND, rewrite: Rewrite::Word("second") },
        Step { pattern: THIRD, rewrite: Rewrite::Word("third") },
        Step { pattern: FOURTH, rewrite: Rewrite::Word("fourth") },
    ]
}

/// `text` with every hyphen, slash and plus between two spaces.
pub open spec fn spaced_symbols(text: Seq<char>) -> Seq<char> {
    replace_all(
        replace_all(replace_all(text, seq!['-'], seq![' ', '-', ' ']), seq!['/'], seq![' ', '/', ' ']),
        seq!['+'],
        seq![' ', '+', ' '],
    )
}

/// The normal form of `text`; `None` where one of the patterns is no valid
/// regular expression.
pub open spec fn normalized(text: Seq<char>) -> Option<Seq<char>> {
    match after_steps(word_steps(), word_steps().len() as int, plain_punctuation(text)) {
        Some(t) => match step_result(WHITESPACE@, Rewrite::Word(" "), spaced_symbols(t)) {
            Some(u) => Some(trimmed(u)),
            None => None,
        },
        None => None,
    }
}

/// The English name of a decimal digit; empty for any other character.
pub fn digit_word(c: char) -> (out: String)
    ensures
        out@ == digit_name(c),
{
    let word = match c {
        '0' => "zero",
        '1' => "one",
        '2' => "two",
        '3' => "three",
        '4' => "four",
        '5' => "five",
        '6' => "six",
        '7' => "seven",
        '8' => "eight",
        '9' => "nine",
        _ => "",
    };
    proof {
        reveal_strlit("");
        assert(""@ =~= Seq::<char>::empty());
    }
    word.to_owned()
}

/// The names of the digits of `s`, with one space between every two names.
fn spell_digits(s: &[char]) -> (out: Vec<char>)
    ensures
        out@ == spelled_digits(s@),
{
    let mut out: Vec<char> = Vec::new();
    let mut i: usize = 0;
    while i < s.len()
        invariant
            i <= s.len(),
            out@ == spelled_digits(s@.take(i as int)),
        decreases s.len() - i,
    {
        if i > 0 {
            out.push(' ');
        }
        let name = chars_of(digit_word(s[i]).as_str());
        out.extend_from_slice(name.as_slice());
        proof {
            let next = s@.take(i + 1);
            assert(next.drop_last() =~= s@.take(i as int));
            assert(next.last() == s@[i as int]);
        }
        i += 1;
    }
    proof {
        assert(s@.take(i as int) =~= s@);
    }
    out
}

/// The last two digits of a year in words.
pub fn two_digit_to_words(yy: &str) -> (out: String)
    ensures
        out@ == two_digit_words(yy@),
{
    let digits = chars_of(yy);
    string_of(two_digit_chars(digits.as_slice()).as_slice())
}

fn two_digit_chars(yy: &[char]) -> (out: Vec<char>)
    ensures
        out@ == two_digit_words(yy@),
{
    if yy.len() == 2 {
        let tens = yy[0];
        let units = yy[1];
        if tens == '0' && units == '0' {
            return chars_of("hundred");
        } else if tens == '0' && units == '1' {
            return chars_of("oh one");
        } else if tens == '0' && units == '2' {
            return chars_of("oh two");
        } else if tens == '1' && units == '0' {
            return chars_of("ten");
        } else if tens == '1' && units == '1' {
            return chars_of("eleven");
        } else if tens == '1' && units == '2' {
            return chars_of("twelve");
        } else if tens == '2' && units == '0' {
            return chars_of("twenty");
        } else if tens == '2' && units == '1' {
            return chars_of("twenty one");
        } else if tens == '2' && units == '2' {
            return chars_of("twenty two");
        }
    }
    spell_digits(yy)
}

/// Writes one space between every two characters of `s`.
fn space_letters(s: &[char]) -> (out: Vec<char>)
    ensures
        out@ == spaced_letters(s@),
{
    let mut out: Vec<char> = Vec::new();
    let mut i: usize = 0;
    while i < s.len()
        invariant
            i <= s.len(),
            out@ == spaced_letters(s@.take(i as int)),
        decreases s.len() - i,
    {
        if i > 0 {
            out.push(' ');
        }
        out.push(s[i]);
        proof {
            let next = s@.take(i + 1);
            assert(next.drop_last() =~= s@.take(i as int));
            assert(next.last() == s@[i as int]);
            if i == 0 {
                assert(out@ =~= next);
            } else {
                assert(out@ =~= spaced_letters(s@.take(i as int)) + seq![' ', s@[i as int]]);
            }
        }
        i += 1;
    }
    proof {
        assert(s@.take(i as int) =~= s@);
    }
    out
}

/// Writes the year of a match in words.
fn spell_year(m: &[char]) -> (out: Vec<char>)
    ensures
        out@ == year_words(m@),
{
    if m.len() != 4 {
        return copy_all(m);
    }
    let mut out = if m[0] == '1' && m[1] == '9' {
        chars_of("nineteen")
    } else {
        chars_of("twenty")
    };
    out.push(' ');
    let rest = two_digit_chars(slice_from(m, 2));
    out.extend_from_slice(rest.as_slice());
    out
}

/// Writes what `rewrite` puts in place of the match `m`.
pub fn rewrite_match(rewrite: &Rewrite, m: &str) -> (out: String)
    ensures
        out@ == rewritten(*rewrite, m@),
{
    let chars = chars_of(m);
    let made = match rewrite {
        Rewrite::SpaceLetters => space_letters(chars.as_slice()),
        Rewrite::SplitCamel => {
            if chars.len() == 2 {
                let mut out: Vec<char> = Vec::new();
                out.push(chars[0]);
                out.push(' ');
                out.push(chars[1]);
                proof {
                    assert(out@ =~= camel_split(m@));
                }
                out
            } else {
                chars
            }
        },
        Rewrite::SpellYear => spell_year(chars.as_slice()),
        Rewrite::Word(w) => chars_of(w),
    };
    string_of(made.as_slice())
}

/// Rebuilds a text from the gaps between the matches of a pattern and from
/// what `rewrite` writes in place of each match.
pub fn refill(gaps: &[String], found: &[String], rewrite: &Rewrite) -> (out: String)
    ensures
        out@ == refilled(views(gaps@), views(found@), *rewrite),
{
    let mut fills: Vec<String> = Vec::new();
    let mut i: usize = 0;
    while i < found.len()
        invariant
            i <= found.len(),
            fills@.len() == i,
            forall|j: int| 0 <= j < i ==> (#[trigger] fills@[j])@ == rewritten(*rewrite, found@[j]@),
        decreases found.len() - i,
    {
        fills.push(rewrite_match(rewrite, found[i].as_str()));
        i += 1;
    }
    proof {
        assert(views(fills@) =~= views(found@).map_values(|m: Seq<char>| rewritten(*rewrite, m)));
    }
    let chars = weave(gaps, fills.as_slice());
    string_of(chars.as_slice())
}

/// Rewrites every match of `pattern` in `text` by `rewrite`. The result is
/// `None` where `pattern` is no valid regular expression.
pub fn rewrite_matches(pattern: &str, rewrite: &Rewrite, text: &str) -> (out: Option<String>)
    ensures
        match out {
            Some(t) => step_result(pattern@, *rewrite, text@) == Some(t@),
            None => step_result(pattern@, *rewrite, text@) is None,
        },
{
    match split_gaps(pattern, text) {
        Some(gaps) => match find_matches(pattern, text) {
            Some(found) => Some(refill(gaps.as_slice(), found.as_slice(), rewrite)),
            None => None,
        },
        None => None,
    }
}

fn build_word_steps() -> (steps: Vec<Step>)
    ensures
        steps@ == word_steps(),
{
    let mut steps: Vec<Step> = Vec::new();
    steps.push(Step { pattern: ACRONYM, rewrite: Rewrite::SpaceLetters });
    steps.push(Step { pattern: CAMEL_CASE, rewrite: Rewrite::SplitCamel });
    steps.push(Step { pattern: YEAR, rewrite: Rewrite::SpellYear });
    steps.push(Step { pattern: FIRST, rewrite: Rewrite::Word("first") });
    steps.push(Step { pattern: SECOND, rewrite: Rewrite::Word("second") });
    steps.push(Step { pattern: THIRD, rewrite: Rewrite::Word("third") });
    steps.push(Step { pattern: FOURTH, rewrite: Rewrite::Word("fourth") });
    proof {
        assert(steps@ =~= word_steps());
    }
    steps
}

/// Replaces typographic punctuation by plain punctuation.
pub fn fold_punctuation(text: &str) -> (out: String)
    ensures
        out@ == plain_punctuation(text@),
{
    let chars = chars_of(text);
    let mut out: Vec<char> = Vec::new();
    let mut i: usize = 0;
    while i < chars.len()
        invariant
            i <= chars.len(),
            out@ == plain_punctuation(chars@.take(i as int)),
        decreases chars.len() - i,
    {
        let c = chars[i];
        let plain = if c == '\u{201C}' || c == '\u{201D}' {
            '"'
        } else if c == '\u{2018}' || c == '\u{2019}' {
            '\''
        } else if c == '\u{2013}' || c == '\u{2014}' {
            '-'
        } else if c == '\u{00A0}' {
            ' '
        } else {
            c
        };
        out.push(plain);
        proof {
            assert(out@ =~= plain_punctuation(chars@.take(i + 1)));
        }
        i += 1;
    }
    proof {
        assert(chars@.take(i as int) =~= chars@);
    }
    string_of(out.as_slice())
}

/// Puts every hyphen, slash and plus between two spaces.
pub fn space_symbols(text: &str) -> (out: String)
    ensures
        out@ == spaced_symbols(text@),
{
    let s = chars_of(text);
    let hyphen: [char; 1] = ['-'];
    let slash: [char; 1] = ['/'];
    let plus: [char; 1] = ['+'];
    let free_hyphen: [char; 3] = [' ', '-', ' '];
    let free_slash: [char; 3] = [' ', '/', ' '];
    let free_plus: [char; 3] = [' ', '+', ' '];
    proof {
        assert(hyphen@ =~= seq!['-']);
        assert(slash@ =~= seq!['/']);
        assert(plus@ =~= seq!['+']);
        assert(free_hyphen@ =~= seq![' ', '-', ' ']);
        assert(free_slash@ =~= seq![' ', '/', ' ']);
        assert(free_plus@ =~= seq![' ', '+', ' ']);
    }
    let s = replace_chars(s.as_slice(), hyphen.as_slice(), free_hyphen.as_slice());
    let s = replace_chars(s.as_slice(), slash.as_slice(), free_slash.as_slice());
    let s = replace_chars(s.as_slice(), plus.as_slice(), free_plus.as_slice());
    string_of(s.as_slice())
}

/// The normal form of `text`, or `None` where one of the patterns of this
/// module is no valid regular expression.
pub fn try_normalize(text: &str) -> (out: Option<String>)
    ensures
        match out {
            Some(t) => normalized(text@) == Some(t@),
            None => normalized(text@) is None,
        },
{
    let steps = build_word_steps();
    let ghost start = plain_punctuation(text@);
    let mut cur = fold_punctuation(text);
    let mut n: usize = 0;
    while n < steps.len()
        invariant
            n <= steps.len(),
            steps@ == word_steps(),
            start == plain_punctuation(text@),
            after_steps(word_steps(), n as int, start) == Some(cur@),
        decreases steps.len() - n,
    {
        match rewrite_matches(steps[n].pattern, &steps[n].rewrite, cur.as_str()) {
            Some(next) => {
                cur = next;
            },
            None => {
                proof {
                    assert(steps@[n as int] == word_steps()[n as int]);
                    assert(after_steps(word_steps(), n as int + 1, start) is None);
                    lemma_steps_stay_failed(word_steps(), n as int + 1, start);
                }
                return None;
            },
        }
        n += 1;
    }
    let freed = space_symbols(cur.as_str());
    match rewrite_matches(WHITESPACE, &Rewrite::Word(" "), freed.as_str()) {
        Some(collapsed) => {
            let chars = chars_of(collapsed.as_str());
            let kept = trim_chars(chars.as_slice());
            Some(string_of(kept.as_slice()))
        },
        None => None,
    }
}

/// Normalises `s` for transcription. Should one of the patterns of this
/// module be no valid regular expression, `s` is handed back as it is.
pub fn normalize_for_kokoro(s: String) -> (out: String)
    ensures
        out@ == match normalized(s@) {
            Some(t) => t,
            None => s@,
        },
{
    match try_normalize(s.as_str()) {
        Some(t) => t,
        None => s,
    }
}

/// Plain punctuation stays as it is: making a text plain a second time changes
/// nothing.
pub proof fn lemma_plain_punctuation_is_stable(text: Seq<char>)
    ensures
        plain_punctuation(plain_punctuation(text)) == plain_punctuation(text),
{
    assert(plain_punctuation(plain_punctuation(text)) =~= plain_punctuation(text));
}

/// Once a step has failed, the steps after it have nothing to work on.
proof fn lemma_steps_stay_failed(steps: Seq<Step>, failed: int, text: Seq<char>)
    requires
        0 < failed <= steps.len(),
        after_steps(steps, failed, text) is None,
    ensures
        after_steps(steps, steps.len() as int, text) is None,
    decreases steps.len() - failed,
{
    if failed < steps.len() {
        lemma_steps_stay_failed(steps, failed + 1, text);
    }
}

/// The characters of `s`.
fn copy_all(s: &[char]) -> (out: Vec<char>)
    ensures
        out@ == s@,
{
    let out = crate::text::copy_chars(s, 0, s.len());
    proof {
        assert(s@.subrange(0, s@.len() as int) =~= s@);
    }
    out
}

/// The part of `s` from `from` on.
fn slice_from(s: &[char], from: usize) -> (out: &[char])
    requires
        from <= s.len(),
    ensures
        out@ == s@.skip(from as int),
{
    let out = &s[from..s.len()];
    proof {
        assert(s@.subrange(from as int, s@.len() as int) =~= s@.skip(from as int));
    }
    out
}

} // verus!
