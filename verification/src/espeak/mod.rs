//! The tokenizer fed by the espeak-ng transcription engine, with the
//! bookkeeping of one transcription.

pub mod g2p;
pub mod ipa_tokenizer;

pub use g2p::EspeakG2P;
pub use ipa_tokenizer::EspeakIpaTokenizer;
