//! The tokenizer for transcriptions of the espeak-ng engine in its extended
//! form: the rewrite table also covers diphthongs and affricates written
//! without a tie, and the mark that closes the text is carried over to the
//! phoneme string.

use vstd::prelude::*;
use crate::rewrite::{map_transcription, rules_view, PhoneticMapper, RewriteRule};
use crate::text::{chars_of, push_char};
use crate::tokenizer::{
    is_longest_symbol, sentinel, token_ids, unknown_symbols, TokenizeError, Tokenization,
    Tokenizer, Vocabulary, DEFAULT_MAX_LENGTH,
};

verus! {

/// The table applied to a raw transcription. Its first pair turns the
/// combining tie bar into a caret, so that tied phones are plain substrings;
/// then come the sources of three characters, those of two, and the single
/// characters.
pub open spec fn misaki_rules() -> Seq<(Seq<char>, Seq<char>)> {
    seq![
        ("\u{0361}"@, "^"@),
        ("ʔˌn\u{0329}"@, "tᵊn"@),
        ("ɜːɹ"@, "ɜɹ"@),
        ("a^ɪ"@, "I"@),
        ("a^ʊ"@, "W"@),
        ("d^ʒ"@, "ʤ"@),
        ("e^ɪ"@, "A"@),
        ("e^ə"@, "ɛ"@),
        ("o^ʊ"@, "O"@),
        ("ə^ʊ"@, "O"@),
        ("t^ʃ"@, "ʧ"@),
        ("ɔ^ɪ"@, "Y"@),
        ("ə^l"@, "ᵊl"@),
        ("ʲO"@, "jO"@),
        ("ʲQ"@, "jQ"@),
        ("ɜː"@, "ɜɹ"@),
        ("ɪə"@, "iə"@),
        ("iə"@, "iə"@),
        ("aɪ"@, "I"@),
        ("aʊ"@, "W"@),
        ("dʒ"@, "ʤ"@),
        ("eɪ"@, "A"@),
        ("oʊ"@, "O"@),
        ("tʃ"@, "ʧ"@),
        ("ɔɪ"@, "Y"@),
        ("ʔn"@, "tᵊn"@),
        ("ɚ"@, "əɹ"@),
        ("ɬ"@, "l"@),
        ("\u{0303}"@, ""@),
        ("ʔ"@, "t"@),
        ("ʲ"@, ""@),
        ("e"@, "A"@),
        ("r"@, "ɹ"@),
        ("x"@, "k"@),
        ("ç"@, "k"@),
        ("ɒ"@, "ɑ"@),
    ]
}

/// The table applied after syllabic consonants are folded: it drops the
/// syllabic marks that are left, the length marks and the carets, and writes
/// the letter g as the phonetic symbol of the same sound.
pub open spec fn misaki_cleanup() -> Seq<(Seq<char>, Seq<char>)> {
    seq![
        ("\u{0329}"@, ""@),
        ("ː"@, ""@),
        ("^"@, ""@),
        ("g"@, "ɡ"@),
    ]
}

fn build_rules() -> (rules: Vec<RewriteRule>)
    ensures
        rules_view(rules@) == misaki_rules(),
{
    let mut rules: Vec<RewriteRule> = Vec::new();
    rules.push(RewriteRule::new("\u{0361}", "^"));
    rules.push(RewriteRule::new("ʔˌn\u{0329}", "tᵊn"));
    rules.push(RewriteRule::new("ɜːɹ", "ɜɹ"));
    rules.push(RewriteRule::new("a^ɪ", "I"));
    rules.push(RewriteRule::new("a^ʊ", "W"));
    rules.push(RewriteRule::new("d^ʒ", "ʤ"));
    rules.push(RewriteRule::new("e^ɪ", "A"));
    rules.push(RewriteRule::new("e^ə", "ɛ"));
    rules.push(RewriteRule::new("o^ʊ", "O"));
    rules.push(RewriteRule::new("ə^ʊ", "O"));
    rules.push(RewriteRule::new("t^ʃ", "ʧ"));
    rules.push(RewriteRule::new("ɔ^ɪ", "Y"));
    rules.push(RewriteRule::new("ə^l", "ᵊl"));
    rules.push(RewriteRule::new("ʲO", "jO"));
    rules.push(RewriteRule::new("ʲQ", "jQ"));
    rules.push(RewriteRule::new("ɜː", "ɜɹ"));
    rules.push(RewriteRule::new("ɪə", "iə"));
    rules.push(RewriteRule::new("iə", "iə"));
    rules.push(RewriteRule::new("aɪ", "I"));
    rules.push(RewriteRule::new("aʊ", "W"));
    rules.push(RewriteRule::new("dʒ", "ʤ"));
    rules.push(RewriteRule::new("eɪ", "A"));
    rules.push(RewriteRule::new("oʊ", "O"));
    rules.push(RewriteRule::new("tʃ", "ʧ"));
    rules.push(RewriteRule::new("ɔɪ", "Y"));
    rules.push(RewriteRule::new("ʔn", "tᵊn"));
    rules.push(RewriteRule::new("ɚ", "əɹ"));
    rules.push(RewriteRule::new("ɬ", "l"));
    rules.push(RewriteRule::new("\u{0303}", ""));
    rules.push(RewriteRule::new("ʔ", "t"));
    rules.push(RewriteRule::new("ʲ", ""));
    rules.push(RewriteRule::new("e", "A"));
    rules.push(RewriteRule::new("r", "ɹ"));
    rules.push(RewriteRule::new("x", "k"));
    rules.push(RewriteRule::new("ç", "k"));
    rules.push(RewriteRule::new("ɒ", "ɑ"));
    proof {
        assert(rules_view(rules@) =~= misaki_rules());
    }
    rules
}

fn build_cleanup() -> (rules: Vec<RewriteRule>)
    ensures
        rules_view(rules@) == misaki_cleanup(),
{
    let mut rules: Vec<RewriteRule> = Vec::new();
    rules.push(RewriteRule::new("\u{0329}", ""));
    rules.push(RewriteRule::new("ː", ""));
    rules.push(RewriteRule::new("^", ""));
    rules.push(RewriteRule::new("g", "ɡ"));
    proof {
        assert(rules_view(rules@) =~= misaki_cleanup());
    }
    rules
}

/// Whether `c` is a mark that closes a sentence or clause and is carried over.
pub open spec fn is_closing_mark(c: char) -> bool {
    c == '.' || c == ';' || c == '!' || c == '?'
}

/// `phonemes`, followed by the closing mark of `text` where `text` ends in
/// one and `phonemes` does not already end in the same.
pub open spec fn with_closing_mark(text: Seq<char>, phonemes: Seq<char>) -> Seq<char> {
    if text.len() > 0 && is_closing_mark(text.last()) && !(phonemes.len() > 0 && phonemes.last()
        == text.last()) {
        phonemes.push(text.last())
    } else {
        phonemes
    }
}

/// The mapper with the two tables of this module.
pub fn misaki_mapper() -> (mapper: PhoneticMapper)
    ensures
        mapper.before_fold() == misaki_rules(),
        mapper.after_fold() == misaki_cleanup(),
{
    PhoneticMapper::new(build_rules(), build_cleanup())
}

/// Turns transcriptions of espeak-ng into token ids of the model.
pub struct EspeakIpaTokenizer {
    base: Tokenizer,
    mapper: PhoneticMapper,
}

impl EspeakIpaTokenizer {
    #[verifier::type_invariant]
    closed spec fn wf(&self) -> bool {
        &&& self.mapper.before_fold() == misaki_rules()
        &&& self.mapper.after_fold() == misaki_cleanup()
    }

    /// The vocabulary, sentinels and limit that the tokenizer works with.
    pub closed spec fn tokenizer(&self) -> Tokenizer {
        self.base
    }

    /// The phoneme string that the tokenizer makes of a raw transcription.
    pub open spec fn misaki(ipa: Seq<char>) -> Seq<char> {
        map_transcription(misaki_rules(), misaki_cleanup(), ipa)
    }

    /// The phoneme string of `text`, whose raw transcription is `ipa`.
    pub open spec fn phonemes(text: Seq<char>, ipa: Seq<char>) -> Seq<char> {
        with_closing_mark(text, Self::misaki(ipa))
    }

    /// A tokenizer over `vocab`. The vocabulary must hold the symbol `"$"`,
    /// whose id becomes both sentinels.
    pub fn new(vocab: Vocabulary) -> (made: Result<Self, TokenizeError>)
        ensures
            match made {
                Ok(t) => {
                    &&& vocab@.contains_key(sentinel())
                    &&& t.tokenizer().vocabulary() == vocab@
                    &&& t.tokenizer().bos() == vocab@[sentinel()]
                    &&& t.tokenizer().eos() == vocab@[sentinel()]
                    &&& t.tokenizer().max_length() == DEFAULT_MAX_LENGTH
                },
                Err(e) => !vocab@.contains_key(sentinel()) && e == TokenizeError::MissingSentinel,
            },
    {
        match Tokenizer::new(vocab) {
            Ok(base) => Ok(EspeakIpaTokenizer { base, mapper: misaki_mapper() }),
            Err(e) => Err(e),
        }
    }

    /// The vocabulary, sentinels and limit that the tokenizer works with.
    pub fn as_tokenizer(&self) -> (base: &Tokenizer)
        ensures
            *base == self.tokenizer(),
    {
        &self.base
    }

    /// The length in characters of the longest symbol of `vocab`, or 1 where
    /// it has none.
    pub fn max_token_chars(vocab: &Vocabulary) -> (n: usize)
        ensures
            n == vocab.longest_symbol(),
            is_longest_symbol(vocab@, n as nat),
    {
        vocab.max_token_chars()
    }

    /// Rewrites a transcription of espeak-ng into the phoneme string of the
    /// model. Stress marks and characters that no pair names are kept.
    pub fn espeak_ipa_to_misaki(&self, ipa: &str) -> (out: String)
        ensures
            out@ == Self::misaki(ipa@),
    {
        proof {
            use_type_invariant(self);
        }
        self.mapper.map(ipa)
    }

    /// The phoneme string of `text`, given the raw transcription `ipa` that
    /// the engine made of it: the rewritten transcription, closed by the mark
    /// that closes `text` if the engine dropped it.
    pub fn text_to_ipa(&self, text: &str, ipa: &str) -> (out: String)
        ensures
            out@ == Self::phonemes(text@, ipa@),
    {
        let mut phonemes = self.espeak_ipa_to_misaki(ipa);
        let written = chars_of(text);
        if written.len() > 0 {
            let mark = written[written.len() - 1];
            if mark == '.' || mark == ';' || mark == '!' || mark == '?' {
                let made = chars_of(phonemes.as_str());
                if !(made.len() > 0 && made[made.len() - 1] == mark) {
                    push_char(&mut phonemes, mark);
                }
            }
        }
        phonemes
    }

    /// The ids of the symbols of `ipa` under longest-match segmentation.
    pub fn tokenize_longest(&self, ipa: &str) -> (ids: Vec<i64>)
        ensures
            ids@ == token_ids(self.tokenizer().vocabulary(), ipa@),
    {
        self.base.tokenize_longest(ipa)
    }

    /// The ids of the symbols of `ipa`, with the characters that no symbol
    /// covers and that are not whitespace.
    pub fn tokenize_with_unknown(&self, ipa: &str) -> (out: Tokenization)
        ensures
            out.ids@ == token_ids(self.tokenizer().vocabulary(), ipa@),
            out.unknown@ == unknown_symbols(self.tokenizer().vocabulary(), ipa@),
    {
        self.base.tokenize_with_unknown(ipa)
    }

    /// Encodes a phoneme string: its ids between the two sentinels, cut at
    /// the end to fit `max_length`, or the tokenizer's own limit where none is
    /// given. This never fails.
    pub fn encode_phonemes(&self, phonemes: &str, max_length: Option<usize>) -> (out: Result<
        Vec<i64>,
        TokenizeError,
    >)
        ensures
            out is Ok,
            out->Ok_0@ == self.tokenizer().encoding(phonemes@, max_length),
            out->Ok_0@.first() == self.tokenizer().bos(),
            out->Ok_0@.last() == self.tokenizer().eos(),
            self.tokenizer().limit(max_length) >= 2 ==> out->Ok_0@.len()
                <= self.tokenizer().limit(max_length),
            token_ids(self.tokenizer().vocabulary(), phonemes@).len() + 2
                <= self.tokenizer().limit(max_length) ==> out->Ok_0@.len() == token_ids(
                self.tokenizer().vocabulary(),
                phonemes@,
            ).len() + 2,
    {
        Ok(self.base.encode_phonemes(phonemes, max_length))
    }

    /// Encodes `text`, given the raw transcription `ipa` that the engine made
    /// of it. An empty transcription means that the engine produced nothing,
    /// and is an error.
    pub fn encode(&self, text: &str, ipa: &str, max_length: Option<usize>) -> (out: Result<
        Vec<i64>,
        TokenizeError,
    >)
        ensures
            match out {
                Ok(ids) => ipa@.len() > 0 && ids@ == self.tokenizer().encoding(
                    Self::phonemes(text@, ipa@),
                    max_length,
                ),
                Err(e) => ipa@.len() == 0 && e == TokenizeError::NoPhonemes,
            },
    {
        if ipa.is_empty() {
            return Err(TokenizeError::NoPhonemes);
        }
        let phonemes = self.text_to_ipa(text, ipa);
        Ok(self.base.encode_phonemes(phonemes.as_str(), max_length))
    }
}

} // verus!
