//! The tokenizer fed word by word by a Phonetisaurus transcription model.
//!
//! A text is split into words, each word is cleaned and transcribed by the
//! model, the transcription of each word is rewritten into the phoneme
//! alphabet of the speech model, and the phoneme strings are joined by
//! spaces. The joined string is then cut into symbols: a vowel and the glide
//! behind it, or the two halves of an affricate, are taken together.

use vstd::prelude::*;
use phonetisaurus_g2p::PhonetisaurusModel;
use crate::pattern::views;
use crate::rewrite::{apply_rules, apply_table, rules_view, RewriteRule};
use crate::text::{
    char_is_alphabetic, char_is_whitespace, chars_of, copy_chars, is_alphabetic, is_whitespace,
    lowercased, split_words, string_of, to_lowercase, trim_chars, trimmed, words,
};
use crate::tokenizer::{framed, sentinel, TokenizeError, Tokenizer, Vocabulary, DEFAULT_MAX_LENGTH};

verus! {

/// A transcription model of the Phonetisaurus kind, as loaded by the
/// `phonetisaurus_g2p` crate. Nothing is known of what it holds.
#[verifier::external_type_specification]
#[verifier::external_body]
pub struct ExPhonetisaurusModel(phonetisaurus_g2p::PhonetisaurusModel);

/// The transcription of one word by `model`, or `None` where the model fails
/// on the word.
///
/// Trusted: stands for `PhonetisaurusModel::phonemize_word`, of whose result
/// the phoneme string is kept and the score dropped. The contract promises
/// nothing of the result.
#[verifier::external_body]
pub(crate) fn phonemize_word(model: &PhonetisaurusModel, word: &str) -> (out: Option<String>) {
    model.phonemize_word(word).ok().map(|r| r.phonemes)
}

/// The table that rewrites the transcription of one word: it drops the
/// signs at the word's edges, fuses diphthongs and affricates into single
/// symbols, writes syllabic consonants with a schwa, drops syllable dots, and
/// maps the vowels that the model writes otherwise.
pub open spec fn misaki_rules() -> Seq<(Seq<char>, Seq<char>)> {
    seq![
        ("#"@, ""@),
        ("eɪ"@, "A"@),
        ("ei"@, "A"@),
        ("aɪ"@, "I"@),
        ("ai"@, "I"@),
        ("aʊ"@, "W"@),
        ("au"@, "W"@),
        ("oʊ"@, "O"@),
        ("ou"@, "O"@),
        ("ɔɪ"@, "Y"@),
        ("oi"@, "Y"@),
        ("tʃ"@, "ʧ"@),
        ("dʒ"@, "ʤ"@),
        ("g"@, "ɡ"@),
        ("l\u{0329}"@, "əl"@),
        ("n\u{0329}"@, "ən"@),
        ("m\u{0329}"@, "əm"@),
        ("\u{0329}"@, ""@),
        ("."@, ""@),
        ("ɜː"@, "ɜ"@),
        ("ɜ˞"@, "ɝ"@),
        ("ər"@, "ɚ"@),
        ("ɹ\u{0329}"@, "ɚ"@),
        ("ɵ"@, "ə"@),
    ]
}

fn build_rules() -> (rules: Vec<RewriteRule>)
    ensures
        rules_view(rules@) == misaki_rules(),
{
    let mut rules: Vec<RewriteRule> = Vec::new();
    rules.push(RewriteRule::new("#", ""));
    rules.push(RewriteRule::new("eɪ", "A"));
    rules.push(RewriteRule::new("ei", "A"));
    rules.push(RewriteRule::new("aɪ", "I"));
    rules.push(RewriteRule::new("ai", "I"));
    rules.push(RewriteRule::new("aʊ", "W"));
    rules.push(RewriteRule::new("au", "W"));
    rules.push(RewriteRule::new("oʊ", "O"));
    rules.push(RewriteRule::new("ou", "O"));
    rules.push(RewriteRule::new("ɔɪ", "Y"));
    rules.push(RewriteRule::new("oi", "Y"));
    rules.push(RewriteRule::new("tʃ", "ʧ"));
    rules.push(RewriteRule::new("dʒ", "ʤ"));
    rules.push(RewriteRule::new("g", "ɡ"));
    rules.push(RewriteRule::new("l\u{0329}", "əl"));
    rules.push(RewriteRule::new("n\u{0329}", "ən"));
    rules.push(RewriteRule::new("m\u{0329}", "əm"));
    rules.push(RewriteRule::new("\u{0329}", ""));
    rules.push(RewriteRule::new(".", ""));
    rules.push(RewriteRule::new("ɜː", "ɜ"));
    rules.push(RewriteRule::new("ɜ˞", "ɝ"));
    rules.push(RewriteRule::new("ər", "ɚ"));
    rules.push(RewriteRule::new("ɹ\u{0329}", "ɚ"));
    rules.push(RewriteRule::new("ɵ", "ə"));
    proof {
        assert(rules_view(rules@) =~= misaki_rules());
    }
    rules
}

/// The characters of `s` that are alphabetic or whitespace, in order.
pub open spec fn letters_of(s: Seq<char>) -> Seq<char>
    decreases s.len(),
{
    if s.len() == 0 {
        s
    } else if is_alphabetic(s.last()) || is_whitespace(s.last()) {
        letters_of(s.drop_last()).push(s.last())
    } else {
        letters_of(s.drop_last())
    }
}

/// The form in which a word is handed to the model: its letters, in
/// lowercase.
pub open spec fn cleaned(word: Seq<char>) -> Seq<char> {
    lowercased(letters_of(word))
}

/// The first `n` of `all`, cleaned, without those that are empty once
/// cleaned.
pub open spec fn cleaned_prefix(all: Seq<Seq<char>>, n: int) -> Seq<Seq<char>>
    decreases n,
{
    if n <= 0 {
        Seq::empty()
    } else if cleaned(all[n - 1]).len() == 0 {
        cleaned_prefix(all, n - 1)
    } else {
        cleaned_prefix(all, n - 1).push(cleaned(all[n - 1]))
    }
}

/// The words of `text` in the form in which they are handed to the model.
pub open spec fn clean_words(text: Seq<char>) -> Seq<Seq<char>> {
    cleaned_prefix(words(text), words(text).len() as int)
}

/// What is transcribed for `word`, given the model's answer `raw`: the answer
/// without the whitespace around it. Where that is empty or a lone boundary
/// sign, the words `i` and `a` have a transcription of their own.
pub open spec fn word_ipa(word: Seq<char>, raw: Seq<char>) -> Seq<char> {
    let answer = trimmed(raw);
    if answer.len() == 0 || answer == seq!['#'] {
        if word == seq!['i'] {
            "#ˈaɪ#"@
        } else if word == seq!['a'] {
            "#ə#"@
        } else {
            answer
        }
    } else {
        answer
    }
}

/// The phoneme string of `word`, given the model's answer `raw`.
pub open spec fn word_phonemes(word: Seq<char>, raw: Seq<char>) -> Seq<char> {
    apply_rules(misaki_rules(), word_ipa(word, raw))
}

/// The phoneme strings of the first `n` words, joined by single spaces. A
/// word without an answer counts as answered by nothing.
pub open spec fn joined_prefix(word_list: Seq<Seq<char>>, raws: Seq<Seq<char>>, n: int) -> Seq<
    char,
>
    decreases n,
{
    if n <= 0 {
        Seq::empty()
    } else {
        let raw = if n - 1 < raws.len() {
            raws[n - 1]
        } else {
            Seq::empty()
        };
        if n == 1 {
            word_phonemes(word_list[0], raw)
        } else {
            joined_prefix(word_list, raws, n - 1) + seq![' '] + word_phonemes(word_list[n - 1], raw)
        }
    }
}

/// The phoneme string of a text whose cleaned words are `word_list` and
/// whose answers from the model are `raws`.
pub open spec fn joined_phonemes(word_list: Seq<Seq<char>>, raws: Seq<Seq<char>>) -> Seq<char> {
    joined_prefix(word_list, raws, word_list.len() as int)
}

/// Whether `c` is one of the two glides that close a diphthong.
pub open spec fn is_glide(c: char) -> bool {
    c == 'ɪ' || c == 'ʊ'
}

/// Whether `c` is a vowel that a glide can follow.
pub open spec fn opens_diphthong(c: char) -> bool {
    c == 'e' || c == 'a' || c == 'ɔ' || c == 'o'
}

/// The number of characters that are taken together at the start of `s`: two
/// for a vowel with its glide and for `tʃ` and `dʒ`, one otherwise.
pub open spec fn group_len(s: Seq<char>) -> nat {
    if s.len() >= 2 && ((opens_diphthong(s[0]) && is_glide(s[1])) || (s[0] == 't' && s[1] == 'ʃ')
        || (s[0] == 'd' && s[1] == 'ʒ')) {
        2
    } else {
        1
    }
}

/// The symbols that are looked up for one group: the five diphthongs of the
/// model are split into their halves, the two affricates become their
/// ligatures, anything else is looked up as it is.
pub open spec fn symbols_of(group: Seq<char>) -> Seq<Seq<char>> {
    if group.len() == 2 && is_glide(group[1]) && ((group[0] == 'e' && group[1] == 'ɪ') || group[0]
        == 'a' || (group[0] == 'ɔ' && group[1] == 'ɪ') || (group[0] == 'o' && group[1] == 'ʊ')) {
        seq![seq![group[0]], seq![group[1]]]
    } else if group == seq!['t', 'ʃ'] {
        seq![seq!['ʧ']]
    } else if group == seq!['d', 'ʒ'] {
        seq![seq!['ʤ']]
    } else {
        seq![group]
    }
}

/// The ids of the first `n` of `symbols`, in order; a symbol that `vocab`
/// does not hold gives none.
pub open spec fn ids_of(vocab: Map<Seq<char>, i64>, symbols: Seq<Seq<char>>, n: int) -> Seq<i64>
    decreases n,
{
    if n <= 0 {
        Seq::empty()
    } else if vocab.contains_key(symbols[n - 1]) {
        ids_of(vocab, symbols, n - 1).push(vocab[symbols[n - 1]])
    } else {
        ids_of(vocab, symbols, n - 1)
    }
}

/// The ids of a phoneme string cut into groups from left to right.
pub open spec fn grouped_ids(vocab: Map<Seq<char>, i64>, s: Seq<char>) -> Seq<i64>
    decreases s.len(),
{
    if s.len() == 0 {
        Seq::empty()
    } else {
        let n = group_len(s);
        let symbols = symbols_of(s.take(n as int));
        ids_of(vocab, symbols, symbols.len() as int) + grouped_ids(vocab, s.skip(n as int))
    }
}

/// Turns texts into token ids of the model by way of a Phonetisaurus model.
pub struct IpaTokenizer {
    base: Tokenizer,
    rules: Vec<RewriteRule>,
}

impl IpaTokenizer {
    #[verifier::type_invariant]
    closed spec fn wf(&self) -> bool {
        rules_view(self.rules@) == misaki_rules()
    }

    /// The vocabulary, sentinels and limit that the tokenizer works with.
    pub closed spec fn tokenizer(&self) -> Tokenizer {
        self.base
    }

    /// The token sequence of the phoneme string `ipa` under `max_length`.
    pub open spec fn encoding(&self, ipa: Seq<char>, max_length: Option<usize>) -> Seq<i64> {
        framed(
            self.tokenizer().bos(),
            self.tokenizer().eos(),
            grouped_ids(self.tokenizer().vocabulary(), ipa),
            self.tokenizer().limit(max_length),
        )
    }

    /// A tokenizer over `vocab`. The vocabulary must hold the symbol `"$"`,
    /// whose id becomes both sentinels.
    pub fn new(vocab: Vocabulary) -> (made: Result<Self, TokenizeError>)
        ensures
            match made {
                Ok(t) => {
                    &&& vocab@.contains_key(sentinel())
                    &&& t.tokenizer().vocabulary() == vocab@
                    &&& t.tokenizer().bos() == vocab@[sentinel()]
                    &&& t.tokenizer().eos() == vocab@[sentinel()]
                    &&& t.tokenizer().max_length() == DEFAULT_MAX_LENGTH
                },
                Err(e) => !vocab@.contains_key(sentinel()) && e == TokenizeError::MissingSentinel,
            },
    {
        match Tokenizer::new(vocab) {
            Ok(base) => Ok(IpaTokenizer { base, rules: build_rules() }),
            Err(e) => Err(e),
        }
    }

    /// The vocabulary, sentinels and limit that the tokenizer works with.
    pub fn as_tokenizer(&self) -> (base: &Tokenizer)
        ensures
            *base == self.tokenizer(),
    {
        &self.base
    }

    /// Rewrites the transcription of one word into the phoneme alphabet of
    /// the speech model. Stress marks are kept.
    pub fn ipa_to_misaki(&self, ipa: &str) -> (out: String)
        ensures
            out@ == apply_rules(misaki_rules(), ipa@),
    {
        proof {
            use_type_invariant(self);
        }
        let s = apply_table(self.rules.as_slice(), chars_of(ipa));
        string_of(s.as_slice())
    }

    /// The words of `text` in the form in which they are handed to the model:
    /// letters only, in lowercase. Words without a letter are left out.
    pub fn clean_words(text: &str) -> (out: Vec<String>)
        ensures
            views(out@) == clean_words(text@),
    {
        let chars = chars_of(text);
        let all = split_words(chars.as_slice());
        let ghost all_views = all@.map_values(|w: Vec<char>| w@);
        let mut out: Vec<String> = Vec::new();
        let mut i: usize = 0;
        while i < all.len()
            invariant
                i <= all.len(),
                all_views == all@.map_values(|w: Vec<char>| w@),
                views(out@) == cleaned_prefix(all_views, i as int),
            decreases all.len() - i,
        {
            let letters = keep_letters(all[i].as_slice());
            let clean = to_lowercase(string_of(letters.as_slice()).as_str());
            let ghost before = views(out@);
            if !clean.as_str().is_empty() {
                out.push(clean);
                proof {
                    assert(views(out@) =~= before.push(cleaned(all_views[i as int])));
                }
            }
            i += 1;
        }
        out
    }

    /// The phoneme string of `word`, given the answer `raw` of the model.
    pub fn word_to_misaki(&self, word: &str, raw: &str) -> (out: String)
        ensures
            out@ == word_phonemes(word@, raw@),
    {
        let answer = trim_chars(chars_of(raw).as_slice());
        let letters = chars_of(word);
        let lone = letters.len() == 1;
        let unanswered = answer.len() == 0 || (answer.len() == 1 && answer[0] == '#');
        proof {
            assert(unanswered <==> (answer@.len() == 0 || answer@ == seq!['#'])) by {
                if answer@.len() == 1 && answer@[0] == '#' {
                    assert(answer@ =~= seq!['#']);
                }
            }
            assert((lone && letters@[0] == 'i') <==> word@ == seq!['i']) by {
                if lone && letters@[0] == 'i' {
                    assert(word@ =~= seq!['i']);
                }
            }
            assert((lone && letters@[0] == 'a') <==> word@ == seq!['a']) by {
                if lone && letters@[0] == 'a' {
                    assert(word@ =~= seq!['a']);
                }
            }
        }
        let ipa = if unanswered && lone && letters[0] == 'i' {
            chars_of("#ˈaɪ#")
        } else if unanswered && lone && letters[0] == 'a' {
            chars_of("#ə#")
        } else {
            answer
        };
        proof {
            use_type_invariant(self);
        }
        let s = apply_table(self.rules.as_slice(), ipa);
        string_of(s.as_slice())
    }

    /// The phoneme string of a text, given its cleaned words and the answers
    /// of the model to them: the phoneme strings of the words, joined by
    /// single spaces.
    pub fn join_words(&self, word_list: &[String], raws: &[String]) -> (out: String)
        ensures
            out@ == joined_phonemes(views(word_list@), views(raws@)),
    {
        let mut out: Vec<char> = Vec::new();
        let mut i: usize = 0;
        while i < word_list.len()
            invariant
                i <= word_list.len(),
                out@ == joined_prefix(views(word_list@), views(raws@), i as int),
            decreases word_list.len() - i,
        {
            let phonemes = if i < raws.len() {
                self.word_to_misaki(word_list[i].as_str(), raws[i].as_str())
            } else {
                proof {
                    reveal_strlit("");
                    assert(""@ =~= Seq::<char>::empty());
                }
                self.word_to_misaki(word_list[i].as_str(), "")
            };
            if i > 0 {
                out.push(' ');
            }
            out.extend_from_slice(chars_of(phonemes.as_str()).as_slice());
            i += 1;
        }
        string_of(out.as_slice())
    }

    /// Transcribes `text` word by word with `phonemizer` and gives its
    /// phoneme string. Fails where the model fails on a word; a text without
    /// words never fails.
    pub fn text_to_ipa(&self, phonemizer: &PhonetisaurusModel, text: &str) -> (out: Result<
        String,
        TokenizeError,
    >)
        ensures
            match out {
                Ok(ipa) => exists|raws: Seq<Seq<char>>|
                    raws.len() == clean_words(text@).len() && ipa@ == joined_phonemes(
                        clean_words(text@),
                        raws,
                    ),
                Err(e) => e == TokenizeError::NoPhonemes && clean_words(text@).len() > 0,
            },
            clean_words(text@).len() == 0 ==> out is Ok && out->Ok_0@ == Seq::<char>::empty(),
    {
        let word_list = Self::clean_words(text);
        let mut raws: Vec<String> = Vec::new();
        let mut i: usize = 0;
        while i < word_list.len()
            invariant
                i <= word_list.len(),
                raws@.len() == i,
                views(word_list@) == clean_words(text@),
            decreases word_list.len() - i,
        {
            match phonemize_word(phonemizer, word_list[i].as_str()) {
                Some(raw) => {
                    raws.push(raw);
                },
                None => {
                    return Err(TokenizeError::NoPhonemes);
                },
            }
            i += 1;
        }
        let ipa = self.join_words(word_list.as_slice(), raws.as_slice());
        proof {
            assert(views(raws@).len() == clean_words(text@).len());
        }
        Ok(ipa)
    }

    /// The symbols that are looked up for one group of characters.
    pub fn map_ipa_to_tokens(&self, ipa_char: &str) -> (out: Vec<String>)
        ensures
            views(out@) == symbols_of(ipa_char@),
    {
        let group = chars_of(ipa_char);
        let mut out: Vec<String> = Vec::new();
        if group.len() == 2 {
            let head = group[0];
            let tail = group[1];
            if (tail == 'ɪ' || tail == 'ʊ') && ((head == 'e' && tail == 'ɪ') || head == 'a' || (head
                == 'ɔ' && tail == 'ɪ') || (head == 'o' && tail == 'ʊ')) {
                out.push(string_of(copy_chars(group.as_slice(), 0, 1).as_slice()));
                out.push(string_of(copy_chars(group.as_slice(), 1, 2).as_slice()));
                proof {
                    assert(group@.subrange(0, 1) =~= seq![group@[0]]);
                    assert(group@.subrange(1, 2) =~= seq![group@[1]]);
                    assert(views(out@) =~= symbols_of(ipa_char@));
                }
                return out;
            } else if head == 't' && tail == 'ʃ' {
                let ligature: [char; 1] = ['ʧ'];
                out.push(string_of(ligature.as_slice()));
                proof {
                    assert(group@ =~= seq!['t', 'ʃ']);
                    assert(ligature@ =~= seq!['ʧ']);
                    assert(views(out@) =~= symbols_of(ipa_char@));
                }
                return out;
            } else if head == 'd' && tail == 'ʒ' {
                let ligature: [char; 1] = ['ʤ'];
                out.push(string_of(ligature.as_slice()));
                proof {
                    assert(group@ =~= seq!['d', 'ʒ']);
                    assert(ligature@ =~= seq!['ʤ']);
                    assert(views(out@) =~= symbols_of(ipa_char@));
                }
                return out;
            }
        }
        out.push(string_of(group.as_slice()));
        proof {
            assert(views(out@) =~= seq![ipa_char@]);
            if group@.len() == 2 {
                assert(!(group@ == seq!['t', 'ʃ'])) by {
                    if group@ == seq!['t', 'ʃ'] {
                        assert(seq!['t', 'ʃ'][0] == 't' && seq!['t', 'ʃ'][1] == 'ʃ');
                    }
                }
                assert(!(group@ == seq!['d', 'ʒ'])) by {
                    if group@ == seq!['d', 'ʒ'] {
                        assert(seq!['d', 'ʒ'][0] == 'd' && seq!['d', 'ʒ'][1] == 'ʒ');
                    }
                }
            } else {
                assert(seq!['t', 'ʃ'].len() == 2 && seq!['d', 'ʒ'].len() == 2);
            }
        }
        out
    }

    /// The ids of the phoneme string `ipa`, cut into groups from left to
    /// right: every symbol of a group that the vocabulary holds gives its id.
    pub fn encode_raw_ipa(&self, ipa: &str) -> (ids: Vec<i64>)
        ensures
            ids@ == grouped_ids(self.tokenizer().vocabulary(), ipa@),
    {
        let chars = chars_of(ipa);
        let vocab = self.base.vocab();
        let mut ids: Vec<i64> = Vec::new();
        let mut i: usize = 0;
        proof {
            assert(chars@.skip(0) =~= chars@);
            assert(ids@ + grouped_ids(vocab@, chars@) =~= grouped_ids(vocab@, chars@));
        }
        while i < chars.len()
            invariant
                i <= chars.len(),
                vocab@ == self.tokenizer().vocabulary(),
                ids@ + grouped_ids(vocab@, chars@.skip(i as int)) == grouped_ids(vocab@, chars@),
            decreases chars.len() - i,
        {
            let ghost rest = chars@.skip(i as int);
            let ghost before = ids@;
            let n: usize = if chars.len() - i >= 2 && (((chars[i] == 'e' || chars[i] == 'a'
                || chars[i] == 'ɔ' || chars[i] == 'o') && (chars[i + 1] == 'ɪ' || chars[i + 1]
                == 'ʊ')) || (chars[i] == 't' && chars[i + 1] == 'ʃ') || (chars[i] == 'd' && chars[i
                + 1] == 'ʒ')) {
                2
            } else {
                1
            };
            assert(n == group_len(rest));
            let group = string_of(copy_chars(chars.as_slice(), i, i + n).as_slice());
            proof {
                assert(group@ =~= rest.take(n as int));
            }
            let symbols = self.map_ipa_to_tokens(group.as_str());
            let ghost wanted = views(symbols@);
            let mut k: usize = 0;
            while k < symbols.len()
                invariant
                    k <= symbols.len(),
                    wanted == views(symbols@),
                    ids@ == before + ids_of(vocab@, wanted, k as int),
                decreases symbols.len() - k,
            {
                match vocab.get(symbols[k].as_str()) {
                    Some(id) => {
                        ids.push(id);
                        proof {
                            assert(ids@ =~= before + ids_of(vocab@, wanted, k + 1));
                        }
                    },
                    None => {},
                }
                k += 1;
            }
            proof {
                assert(rest.skip(n as int) =~= chars@.skip(i + n));
                assert(ids@ + grouped_ids(vocab@, rest.skip(n as int)) =~= before + (ids_of(
                    vocab@,
                    wanted,
                    wanted.len() as int,
                ) + grouped_ids(vocab@, rest.skip(n as int))));
            }
            i += n;
        }
        proof {
            assert(chars@.skip(i as int).len() == 0);
        }
        ids
    }

    /// Encodes the phoneme string `ipa`: its ids between the two sentinels,
    /// cut at the end to fit `max_length`, or the tokenizer's own limit where
    /// none is given.
    pub fn encode_ipa(&self, ipa: &str, max_length: Option<usize>) -> (out: Vec<i64>)
        ensures
            out@ == self.encoding(ipa@, max_length),
            out@.len() >= 2,
            out@.first() == self.tokenizer().bos(),
            out@.last() == self.tokenizer().eos(),
            self.tokenizer().limit(max_length) >= 2 ==> out@.len() <= self.tokenizer().limit(
                max_length,
            ),
    {
        let inner = self.encode_raw_ipa(ipa);
        self.base.frame_ids(inner.as_slice(), max_length)
    }

    /// Transcribes `text` with `phonemizer` and encodes the phoneme string
    /// between the two sentinels. Fails where the model fails on a word; a text
    /// without words gives the two sentinels.
    pub fn encode(
        &self,
        phonemizer: &PhonetisaurusModel,
        text: &str,
        max_length: Option<usize>,
    ) -> (out: Result<Vec<i64>, TokenizeError>)
        ensures
            match out {
                Ok(ids) => {
                    &&& exists|raws: Seq<Seq<char>>|
                        raws.len() == clean_words(text@).len() && ids@ == self.encoding(
                            joined_phonemes(clean_words(text@), raws),
                            max_length,
                        )
                    &&& ids@.len() >= 2
                    &&& ids@.first() == self.tokenizer().bos()
                    &&& ids@.last() == self.tokenizer().eos()
                    &&& self.tokenizer().limit(max_length) >= 2 ==> ids@.len()
                        <= self.tokenizer().limit(max_length)
                },
                Err(e) => e == TokenizeError::NoPhonemes && clean_words(text@).len() > 0,
            },
            clean_words(text@).len() == 0 ==> out is Ok && out->Ok_0@ == self.encoding(
                Seq::<char>::empty(),
                max_length,
            ),
    {
        match self.text_to_ipa(phonemizer, text) {
            Ok(ipa) => Ok(self.encode_ipa(ipa.as_str(), max_length)),
            Err(e) => Err(e),
        }
    }

    /// Transcribes `text` with `phonemizer` and gives the ids of the phoneme
    /// string without sentinels and without a length limit. Fails where the
    /// model fails on a word; a text without words gives no ids.
    pub fn encode_raw(&self, phonemizer: &PhonetisaurusModel, text: &str) -> (out: Result<
        Vec<i64>,
        TokenizeError,
    >)
        ensures
            match out {
                Ok(ids) => exists|raws: Seq<Seq<char>>|
                    raws.len() == clean_words(text@).len() && ids@ == grouped_ids(
                        self.tokenizer().vocabulary(),
                        joined_phonemes(clean_words(text@), raws),
                    ),
                Err(e) => e == TokenizeError::NoPhonemes && clean_words(text@).len() > 0,
            },
            clean_words(text@).len() == 0 ==> out is Ok && out->Ok_0@ == Seq::<i64>::empty(),
    {
        match self.text_to_ipa(phonemizer, text) {
            Ok(ipa) => Ok(self.encode_raw_ipa(ipa.as_str())),
            Err(e) => Err(e),
        }
    }
}

/// The characters of `word` that are alphabetic or whitespace.
fn keep_letters(word: &[char]) -> (out: Vec<char>)
    ensures
        out@ == letters_of(word@),
{
    let mut out: Vec<char> = Vec::new();
    let mut i: usize = 0;
    proof {
        assert(word@.take(0) =~= Seq::<char>::empty());
    }
    while i < word.len()
        invariant
            i <= word.len(),
            out@ == letters_of(word@.take(i as int)),
        decreases word.len() - i,
    {
        let c = word[i];
        let keep = char_is_alphabetic(c) || char_is_whitespace(c);
        if keep {
            out.push(c);
        }
        proof {
            let next = word@.take(i + 1);
            assert(next.drop_last() =~= word@.take(i as int));
            assert(next.last() == c);
        }
        i += 1;
    }
    proof {
        assert(word@.take(i as int) =~= word@);
    }
    out
}

} // verus!
