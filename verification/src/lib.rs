//! Text front end for the Kokoro speech model: normalisation of raw text,
//! rewriting of phonetic transcriptions into the model's phoneme alphabet,
//! longest-match tokenisation with a sentinel-preserving truncation rule, and
//! selection of the length-conditioned style vector.

pub mod espeak;
pub mod espeak_ipa_tokenizer;
pub mod interactive;
pub mod ipa_tokenizer;
pub mod kokoro;
pub mod pattern;
pub mod rewrite;
pub mod text;
pub mod tokenizer;

pub use kokoro::{load_voice_style, GraphOptimizationLevel, KokoroTTS, TTSConfig, VoiceStyle};
