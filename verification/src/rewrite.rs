//! Ordered literal rewriting of phonetic transcriptions.
//!
//! A transcription is rewritten by a table of `(source, target)` pairs. The
//! pairs are applied one after another, each as a replacement of every
//! non-overlapping occurrence of its source over the whole string, so the
//! order of the table is part of its meaning: an earlier pair can both consume
//! text that a later pair would have matched and produce text that a later
//! pair does match.

use vstd::prelude::*;
use crate::text::{chars_of, string_of};

verus! {

/// The combining mark that makes the preceding consonant syllabic (U+0329).
pub const SYLLABIC_MARK: char = '\u{0329}';

/// The small schwa that is written before a folded syllabic consonant (U+1D4A).
pub const SCHWA_MARK: char = '\u{1D4A}';

/// `s` begins with `p`.
pub open spec fn starts_with(s: Seq<char>, p: Seq<char>) -> bool {
    p.len() <= s.len() && s.take(p.len() as int) == p
}

/// `s` with every non-overlapping occurrence of `from`, found left to right,
/// replaced by `to`. An empty `from` occurs once before every character and
/// once at the end.
pub open spec fn replace_all(s: Seq<char>, from: Seq<char>, to: Seq<char>) -> Seq<char>
    decreases s.len(),
{
    if from.len() > 0 && starts_with(s, from) {
        to + replace_all(s.skip(from.len() as int), from, to)
    } else if s.len() == 0 {
        if from.len() == 0 {
            to
        } else {
            s
        }
    } else if from.len() == 0 {
        to + seq![s[0]] + replace_all(s.skip(1), from, to)
    } else {
        seq![s[0]] + replace_all(s.skip(1), from, to)
    }
}

/// `s` after the first `n` pairs of `rules` have been applied in order.
pub open spec fn apply_prefix(rules: Seq<(Seq<char>, Seq<char>)>, n: int, s: Seq<char>) -> Seq<
    char,
>
    decreases n,
{
    if n <= 0 {
        s
    } else {
        replace_all(apply_prefix(rules, n - 1, s), rules[n - 1].0, rules[n - 1].1)
    }
}

/// `s` after every pair of `rules` has been applied in order.
pub open spec fn apply_rules(rules: Seq<(Seq<char>, Seq<char>)>, s: Seq<char>) -> Seq<char> {
    apply_prefix(rules, rules.len() as int, s)
}

/// `s` with every character that is directly followed by the syllabic mark
/// rewritten, together with the mark, as the schwa mark followed by that
/// character. Pairs are found left to right and do not overlap.
pub open spec fn fold_syllabic(s: Seq<char>) -> Seq<char>
    decreases s.len(),
{
    if s.len() < 2 {
        s
    } else if s[1] == SYLLABIC_MARK {
        seq![SCHWA_MARK, s[0]] + fold_syllabic(s.skip(2))
    } else {
        seq![s[0]] + fold_syllabic(s.skip(1))
    }
}

/// What a mapper with the tables `before` and `after` makes of `raw`.
pub open spec fn map_transcription(
    before: Seq<(Seq<char>, Seq<char>)>,
    after: Seq<(Seq<char>, Seq<char>)>,
    raw: Seq<char>,
) -> Seq<char> {
    apply_rules(after, fold_syllabic(apply_rules(before, raw)))
}

/// Whether `p` occurs in `s` at position `at`. Nothing occurs past the end
/// of `s`.
pub fn occurs_at(s: &[char], at: usize, p: &[char]) -> (found: bool)
    ensures
        found == (at <= s@.len() && starts_with(s@.skip(at as int), p@)),
{
    if at > s.len() || p.len() > s.len() - at {
        return false;
    }
    let mut k: usize = 0;
    while k < p.len()
        invariant
            at <= s.len(),
            p.len() <= s.len() - at,
            k <= p.len(),
            forall|j: int| 0 <= j < k ==> s@[at + j] == p@[j],
        decreases p.len() - k,
    {
        if s[at + k] != p[k] {
            proof {
                let t = s@.skip(at as int).take(p@.len() as int);
                assert(t[k as int] == s@[at + k]);
            }
            return false;
        }
        k += 1;
    }
    proof {
        assert(s@.skip(at as int).take(p@.len() as int) =~= p@);
    }
    true
}

/// Replaces every non-overlapping occurrence of `from` in `s` by `to`.
pub fn replace_chars(s: &[char], from: &[char], to: &[char]) -> (out: Vec<char>)
    ensures
        out@ == replace_all(s@, from@, to@),
{
    let mut out: Vec<char> = Vec::new();
    let mut i: usize = 0;
    proof {
        assert(s@.skip(0) =~= s@);
        assert(out@ + replace_all(s@, from@, to@) =~= replace_all(s@, from@, to@));
    }
    while i < s.len()
        invariant
            i <= s.len(),
            out@ + replace_all(s@.skip(i as int), from@, to@) == replace_all(s@, from@, to@),
        decreases s.len() - i,
    {
        let ghost rest = s@.skip(i as int);
        let ghost done = out@;
        if from.len() == 0 {
            out.extend_from_slice(to);
            out.push(s[i]);
            proof {
                assert(rest.skip(1) =~= s@.skip(i + 1));
                assert(out@ + replace_all(rest.skip(1), from@, to@) =~= done + (to@ + seq![rest[0]]
                    + replace_all(rest.skip(1), from@, to@)));
            }
            i += 1;
        } else if occurs_at(s, i, from) {
            out.extend_from_slice(to);
            proof {
                assert(rest.skip(from@.len() as int) =~= s@.skip(i + from@.len()));
                assert(out@ + replace_all(rest.skip(from@.len() as int), from@, to@) =~= done + (
                to@ + replace_all(rest.skip(from@.len() as int), from@, to@)));
            }
            i += from.len();
        } else {
            out.push(s[i]);
            proof {
                assert(rest.skip(1) =~= s@.skip(i + 1));
                assert(out@ + replace_all(rest.skip(1), from@, to@) =~= done + (seq![rest[0]]
                    + replace_all(rest.skip(1), from@, to@)));
            }
            i += 1;
        }
    }
    if from.len() == 0 {
        out.extend_from_slice(to);
    }
    proof {
        assert(s@.skip(i as int).len() == 0);
    }
    out
}

/// Replaces every non-overlapping occurrence of `from` in `text` by `to`.
pub fn replace_text(text: &str, from: &str, to: &str) -> (out: String)
    ensures
        out@ == replace_all(text@, from@, to@),
{
    let s = chars_of(text);
    let f = chars_of(from);
    let t = chars_of(to);
    let r = replace_chars(s.as_slice(), f.as_slice(), t.as_slice());
    string_of(r.as_slice())
}

/// One pair of a rewrite table.
pub struct RewriteRule {
    pub source: Vec<char>,
    pub target: Vec<char>,
}

impl View for RewriteRule {
    type V = (Seq<char>, Seq<char>);

    open spec fn view(&self) -> (Seq<char>, Seq<char>) {
        (self.source@, self.target@)
    }
}

impl RewriteRule {
    /// The pair that rewrites `source` to `target`.
    pub fn new(source: &str, target: &str) -> (rule: RewriteRule)
        ensures
            rule@ == (source@, target@),
    {
        RewriteRule { source: chars_of(source), target: chars_of(target) }
    }
}

/// The pairs of a table, each by its view.
pub open spec fn rules_view(rules: Seq<RewriteRule>) -> Seq<(Seq<char>, Seq<char>)> {
    rules.map_values(|r: RewriteRule| r@)
}

/// Applies the pairs of `rules` to `s`, first to last.
pub fn apply_table(rules: &[RewriteRule], s: Vec<char>) -> (out: Vec<char>)
    ensures
        out@ == apply_rules(rules_view(rules@), s@),
{
    let ghost start = s@;
    let mut cur = s;
    let mut n: usize = 0;
    while n < rules.len()
        invariant
            n <= rules.len(),
            cur@ == apply_prefix(rules_view(rules@), n as int, start),
        decreases rules.len() - n,
    {
        let rule = &rules[n];
        cur = replace_chars(cur.as_slice(), rule.source.as_slice(), rule.target.as_slice());
        n += 1;
    }
    cur
}

/// Moves a schwa mark in front of every syllabic consonant, consuming the
/// syllabic mark behind it.
pub fn fold_syllabic_consonants(s: Vec<char>) -> (out: Vec<char>)
    ensures
        out@ == fold_syllabic(s@),
{
    let mut out: Vec<char> = Vec::new();
    let mut i: usize = 0;
    proof {
        assert(s@.skip(0) =~= s@);
        assert(out@ + fold_syllabic(s@) =~= fold_syllabic(s@));
    }
    while i < s.len()
        invariant
            i <= s.len(),
            out@ + fold_syllabic(s@.skip(i as int)) == fold_syllabic(s@),
        decreases s.len() - i,
    {
        let ghost rest = s@.skip(i as int);
        let ghost done = out@;
        if s.len() - i >= 2 && s[i + 1] == SYLLABIC_MARK {
            out.push(SCHWA_MARK);
            out.push(s[i]);
            proof {
                assert(rest.skip(2) =~= s@.skip(i + 2));
                assert(out@ + fold_syllabic(rest.skip(2)) =~= done + (seq![SCHWA_MARK, rest[0]]
                    + fold_syllabic(rest.skip(2))));
            }
            i += 2;
        } else {
            out.push(s[i]);
            proof {
                assert(rest.skip(1) =~= s@.skip(i + 1));
                if rest.len() >= 2 {
                    assert(out@ + fold_syllabic(rest.skip(1)) =~= done + (seq![rest[0]]
                        + fold_syllabic(rest.skip(1))));
                } else {
                    assert(rest =~= seq![rest[0]]);
                    assert(fold_syllabic(rest.skip(1)) =~= Seq::<char>::empty());
                    assert(out@ + fold_syllabic(rest.skip(1)) =~= done + rest);
                }
            }
            i += 1;
        }
    }
    proof {
        assert(s@.skip(i as int).len() == 0);
    }
    out
}

/// A rewrite engine for one transcription backend: the table applied before
/// syllabic consonants are folded, and the table applied after.
///
/// Two backends have two mappers. Their tables differ in order and in
/// targets and are never merged.
pub struct PhoneticMapper {
    before: Vec<RewriteRule>,
    after: Vec<RewriteRule>,
}

impl PhoneticMapper {
    /// The table applied to the raw transcription.
    pub closed spec fn before_fold(&self) -> Seq<(Seq<char>, Seq<char>)> {
        rules_view(self.before@)
    }

    /// The table applied once syllabic consonants are folded.
    pub closed spec fn after_fold(&self) -> Seq<(Seq<char>, Seq<char>)> {
        rules_view(self.after@)
    }

    /// A mapper that applies `before`, folds syllabic consonants, and applies
    /// `after`.
    pub fn new(before: Vec<RewriteRule>, after: Vec<RewriteRule>) -> (mapper: PhoneticMapper)
        ensures
            mapper.before_fold() == rules_view(before@),
            mapper.after_fold() == rules_view(after@),
    {
        PhoneticMapper { before, after }
    }

    /// Rewrites a raw transcription into the target alphabet. Characters that
    /// no pair matches are kept as they are.
    pub fn map(&self, raw: &str) -> (out: String)
        ensures
            out@ == map_transcription(self.before_fold(), self.after_fold(), raw@),
    {
        let s = chars_of(raw);
        let s = apply_table(self.before.as_slice(), s);
        let s = fold_syllabic_consonants(s);
        let s = apply_table(self.after.as_slice(), s);
        string_of(s.as_slice())
    }
}

} // verus!
