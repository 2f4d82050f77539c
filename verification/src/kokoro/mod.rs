//! What the Kokoro model is handed: its configuration, the vocabulary of its
//! tokenizer file, normalised text, and the style vector of a voice.

pub mod normalization;
pub mod tts;
pub mod voice;

pub use normalization::normalize_for_kokoro;
pub use tts::{ConfigError, GraphOptimizationLevel, KokoroTTS, ModelInput, TTSConfig};
pub use voice::{load_voice_style, VoiceStyle};
