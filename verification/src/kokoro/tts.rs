//! The configuration of the synthesis engine, the vocabulary of its
//! tokenizer file, and the two inputs that the model is handed for an
//! utterance: the token ids and the style vector chosen by their number.

use vstd::prelude::*;
use crate::espeak_ipa_tokenizer::EspeakIpaTokenizer;
use crate::kokoro::voice::{style_vector, VoiceStyle, STYLE_DIMENSION};
use crate::tokenizer::{sentinel, TokenizeError, Vocabulary, DEFAULT_MAX_LENGTH};

verus! {

/// The sample rate of an engine that is given none.
pub const DEFAULT_SAMPLE_RATE: u32 = 22050;

/// How far the inference engine may rewrite the model's graph.
#[derive(Debug, Clone, Copy, PartialEq, Eq, Structural)]
pub enum GraphOptimizationLevel {
    Disable,
    Level1,
    Level2,
    Level3,
}

/// The settings of one engine.
pub struct TTSConfig {
    /// Where the model is read from.
    pub model_path: String,
    /// Where the tokenizer file is read from.
    pub tokenizer_path: String,
    /// The greatest length of a token sequence, sentinels included.
    pub max_length: usize,
    /// The number of samples per second of the audio that the model makes.
    pub sample_rate: u32,
    /// How far the inference engine may rewrite the model's graph.
    pub graph_level: GraphOptimizationLevel,
}

impl TTSConfig {
    /// The settings for the model at `model_path` with the tokenizer file at
    /// `tokenizer_path`: sequences of at most 512 tokens, 22050 samples per
    /// second, full graph optimisation.
    pub fn new(model_path: &str, tokenizer_path: &str) -> (config: TTSConfig)
        ensures
            config.model_path@ == model_path@,
            config.tokenizer_path@ == tokenizer_path@,
            config.max_length == DEFAULT_MAX_LENGTH,
            config.sample_rate == DEFAULT_SAMPLE_RATE,
            config.graph_level == GraphOptimizationLevel::Level3,
    {
        TTSConfig {
            model_path: model_path.to_owned(),
            tokenizer_path: tokenizer_path.to_owned(),
            max_length: DEFAULT_MAX_LENGTH,
            sample_rate: DEFAULT_SAMPLE_RATE,
            graph_level: GraphOptimizationLevel::Level3,
        }
    }

    /// The same settings with `max_length` as the greatest length of a token
    /// sequence.
    pub fn with_max_tokens_length(self, max_length: usize) -> (config: TTSConfig)
        ensures
            config == (TTSConfig { max_length, ..self }),
    {
        let mut config = self;
        config.max_length = max_length;
        config
    }

    /// The same settings with `sample_rate` samples per second.
    pub fn with_sample_rate(self, sample_rate: u32) -> (config: TTSConfig)
        ensures
            config == (TTSConfig { sample_rate, ..self }),
    {
        let mut config = self;
        config.sample_rate = sample_rate;
        config
    }

    /// The same settings with the graph optimisation `level`.
    pub fn with_graph_optimization_level(self, level: GraphOptimizationLevel) -> (config: TTSConfig)
        ensures
            config == (TTSConfig { graph_level: level, ..self }),
    {
        let mut config = self;
        config.graph_level = level;
        config
    }
}

/// Why an engine could not be set up.
#[derive(Debug, Clone, Copy, PartialEq, Eq, Structural)]
pub enum ConfigError {
    /// The tokenizer file is no JSON document.
    InvalidTokenizerFile,
    /// The tokenizer file has no table at `model.vocab`.
    NoVocabulary,
    /// The vocabulary has no symbol `"$"`.
    MissingSentinel,
}

/// An error of the `serde_json` crate.
#[verifier::external_type_specification]
#[verifier::external_body]
pub struct ExJsonError(serde_json::Error);

/// The members of the object that the JSON document `document` holds under
/// the key `inner` of its member `outer`, in the order in which `serde_json`
/// walks them, each with its value as a signed 64-bit integer where it is
/// one. The result is `None` where `document` is no JSON document, and
/// `Some(None)` where it has no object in that place.
pub uninterp spec fn json_table(document: Seq<char>, outer: Seq<char>, inner: Seq<char>) -> Option<
    Option<Seq<(Seq<char>, Option<i64>)>>,
>;

/// The pairs of `table`, each with its key by its characters.
pub open spec fn table_view(table: Seq<(String, Option<i64>)>) -> Seq<(Seq<char>, Option<i64>)> {
    table.map_values(|e: (String, Option<i64>)| (e.0@, e.1))
}

/// Reads the table that a JSON document holds at `outer.inner`.
///
/// Trusted: parses `document` with `serde_json::from_str` into a
/// `serde_json::Value`, indexes it by `outer` and then by `inner`, and reads
/// the result with `Value::as_object`; each member's value is read with
/// `Value::as_i64`. The contract only names the outcome; it claims that the
/// outcome depends on nothing but the three strings, that an error is
/// returned exactly where the document does not parse, and `None` exactly
/// where the place holds no object.
#[verifier::external_body]
pub(crate) fn read_json_table(document: &str, outer: &str, inner: &str) -> (out: Result<
    Option<Vec<(String, Option<i64>)>>,
    serde_json::Error,
>)
    ensures
        match out {
            Ok(Some(table)) => json_table(document@, outer@, inner@) == Some(
                Some(table_view(table@)),
            ),
            Ok(None) => json_table(document@, outer@, inner@) == Some(
                None::<Seq<(Seq<char>, Option<i64>)>>,
            ),
            Err(_) => json_table(document@, outer@, inner@) is None,
        },
{
    let parsed: serde_json::Value = serde_json::from_str(document)?;
    Ok(
        parsed[outer][inner].as_object().map(
            |members| members.iter().map(|(key, value)| (key.clone(), value.as_i64())).collect(),
        ),
    )
}

/// The vocabulary that the first `n` pairs of `table` make: each symbol with
/// its id, or with 0 where its value is no integer; a later pair replaces an
/// earlier one of the same symbol.
pub open spec fn table_map(table: Seq<(Seq<char>, Option<i64>)>, n: int) -> Map<Seq<char>, i64>
    decreases n,
{
    if n <= 0 {
        Map::empty()
    } else {
        table_map(table, n - 1).insert(
            table[n - 1].0,
            match table[n - 1].1 {
                Some(id) => id,
                None => 0,
            },
        )
    }
}

/// The vocabulary that the pairs of `table` make.
pub fn vocabulary_from_table(table: &[(String, Option<i64>)]) -> (vocab: Vocabulary)
    ensures
        vocab@ == table_map(table_view(table@), table@.len() as int),
{
    let mut vocab = Vocabulary::new();
    let mut i: usize = 0;
    while i < table.len()
        invariant
            i <= table.len(),
            vocab@ == table_map(table_view(table@), i as int),
        decreases table.len() - i,
    {
        let id = match table[i].1 {
            Some(id) => id,
            None => 0,
        };
        vocab.insert(table[i].0.as_str(), id);
        i += 1;
    }
    vocab
}

/// The vocabulary of a tokenizer file: the table at `model.vocab` of the JSON
/// document.
pub fn vocabulary_from_json(document: &str) -> (out: Result<Vocabulary, ConfigError>)
    ensures
        match json_table(document@, "model"@, "vocab"@) {
            None => out == Err::<Vocabulary, ConfigError>(ConfigError::InvalidTokenizerFile),
            Some(None) => out == Err::<Vocabulary, ConfigError>(ConfigError::NoVocabulary),
            Some(Some(table)) => out is Ok && out->Ok_0@ == table_map(table, table.len() as int),
        },
{
    match read_json_table(document, "model", "vocab") {
        Ok(Some(table)) => Ok(vocabulary_from_table(table.as_slice())),
        Ok(None) => Err(ConfigError::NoVocabulary),
        Err(_) => Err(ConfigError::InvalidTokenizerFile),
    }
}

/// What the model is handed for one utterance.
pub struct ModelInput {
    /// The token ids, sentinels included.
    pub tokens: Vec<i64>,
    /// The style vector for an utterance of as many tokens.
    pub style: Vec<u32>,
}

/// The tokenizer and the settings of one engine.
pub struct KokoroTTS {
    tokenizer: EspeakIpaTokenizer,
    config: TTSConfig,
}

impl KokoroTTS {
    /// The tokenizer of the engine.
    pub closed spec fn tokenizer(&self) -> EspeakIpaTokenizer {
        self.tokenizer
    }

    /// The settings of the engine.
    pub closed spec fn config(&self) -> TTSConfig {
        self.config
    }

    /// The token sequence of a phoneme string under the engine's limit.
    pub open spec fn tokens_of(&self, phonemes: Seq<char>) -> Seq<i64> {
        self.tokenizer().tokenizer().encoding(phonemes, Some(self.config().max_length))
    }

    /// The engine with the settings `config` and the vocabulary of the
    /// tokenizer file whose content is `tokenizer_json`.
    pub fn with_config(config: TTSConfig, tokenizer_json: &str) -> (out: Result<
        KokoroTTS,
        ConfigError,
    >)
        ensures
            match json_table(tokenizer_json@, "model"@, "vocab"@) {
                None => out is Err && out->Err_0 == ConfigError::InvalidTokenizerFile,
                Some(None) => out is Err && out->Err_0 == ConfigError::NoVocabulary,
                Some(Some(table)) => {
                    let vocab = table_map(table, table.len() as int);
                    if vocab.contains_key(sentinel()) {
                        &&& out is Ok
                        &&& out->Ok_0.config() == config
                        &&& out->Ok_0.tokenizer().tokenizer().vocabulary() == vocab
                        &&& out->Ok_0.tokenizer().tokenizer().bos() == vocab[sentinel()]
                        &&& out->Ok_0.tokenizer().tokenizer().eos() == vocab[sentinel()]
                    } else {
                        out is Err && out->Err_0 == ConfigError::MissingSentinel
                    }
                },
            },
    {
        let vocab = match vocabulary_from_json(tokenizer_json) {
            Ok(vocab) => vocab,
            Err(e) => {
                return Err(e);
            },
        };
        match EspeakIpaTokenizer::new(vocab) {
            Ok(tokenizer) => Ok(KokoroTTS { tokenizer, config }),
            Err(_) => Err(ConfigError::MissingSentinel),
        }
    }

    /// The tokenizer of the engine.
    pub fn as_tokenizer(&self) -> (tokenizer: &EspeakIpaTokenizer)
        ensures
            *tokenizer == self.tokenizer(),
    {
        &self.tokenizer
    }

    /// The settings of the engine.
    pub fn settings(&self) -> (config: &TTSConfig)
        ensures
            *config == self.config(),
    {
        &self.config
    }

    /// The inputs of the model for the token ids `tokens`: the ids as they
    /// are, and the style vector of `voice_style` for their number.
    pub fn inputs_from_tokens(&self, tokens: &[i64], voice_style: &VoiceStyle) -> (input: ModelInput)
        ensures
            input.tokens@ == tokens@,
            input.style@ == style_vector(
                voice_style.data@,
                voice_style.vector_size as nat,
                tokens@.len(),
                STYLE_DIMENSION as nat,
            ),
            input.style@.len() == STYLE_DIMENSION,
    {
        let style = voice_style.get_style_vector_for_token_length(tokens.len(), STYLE_DIMENSION);
        let mut ids: Vec<i64> = Vec::new();
        ids.extend_from_slice(tokens);
        ModelInput { tokens: ids, style }
    }

    /// The inputs of the model for a phoneme string.
    pub fn inputs_from_phonemes(&self, phonemes: &str, voice_style: &VoiceStyle) -> (input:
        ModelInput)
        ensures
            input.tokens@ == self.tokens_of(phonemes@),
            input.style@ == style_vector(
                voice_style.data@,
                voice_style.vector_size as nat,
                input.tokens@.len(),
                STYLE_DIMENSION as nat,
            ),
            input.style@.len() == STYLE_DIMENSION,
    {
        let tokens = self.tokenizer.as_tokenizer().encode_phonemes(
            phonemes,
            Some(self.config.max_length),
        );
        self.inputs_from_tokens(tokens.as_slice(), voice_style)
    }

    /// The inputs of the model for `text`, given the raw transcription `ipa`
    /// that the engine made of it. An empty transcription is an error.
    pub fn inputs_from_text(&self, text: &str, ipa: &str, voice_style: &VoiceStyle) -> (out: Result<
        ModelInput,
        TokenizeError,
    >)
        ensures
            match out {
                Ok(input) => {
                    &&& ipa@.len() > 0
                    &&& input.tokens@ == self.tokens_of(EspeakIpaTokenizer::phonemes(text@, ipa@))
                    &&& input.style@ == style_vector(
                        voice_style.data@,
                        voice_style.vector_size as nat,
                        input.tokens@.len(),
                        STYLE_DIMENSION as nat,
                    )
                    &&& input.style@.len() == STYLE_DIMENSION
                },
                Err(e) => ipa@.len() == 0 && e == TokenizeError::NoPhonemes,
            },
    {
        match self.tokenizer.encode(text, ipa, Some(self.config.max_length)) {
            Ok(tokens) => Ok(self.inputs_from_tokens(tokens.as_slice(), voice_style)),
            Err(e) => Err(e),
        }
    }
}

} // verus!
