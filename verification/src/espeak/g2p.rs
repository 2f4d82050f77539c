//! The bookkeeping of one transcription by the espeak-ng engine.
//!
//! The engine transcribes one sentence per call and hands back what is left
//! of the text. The caller makes the calls; this module decides after each
//! call what the transcript is and whether another call is due.

use vstd::prelude::*;
use vstd::string::StringExecFns;
use crate::text::{char_is_whitespace, chars_of, is_whitespace, push_char};
use crate::tokenizer::TokenizeError;

verus! {

/// `s` holds nothing but whitespace.
pub open spec fn is_blank(s: Seq<char>) -> bool {
    forall|i: int| 0 <= i < s.len() ==> is_whitespace(#[trigger] s[i])
}

/// The transcript `so_far` after the engine returned `phonemes` for one more
/// sentence: sentences are separated by one space, and a sentence without
/// phonemes leaves no trace.
pub open spec fn joined(so_far: Seq<char>, phonemes: Seq<char>) -> Seq<char> {
    if phonemes.len() == 0 {
        so_far
    } else if so_far.len() == 0 {
        phonemes
    } else {
        so_far + seq![' '] + phonemes
    }
}

/// The transcript `so_far` after one call of the engine that returned
/// `phonemes`, or nothing at all.
pub open spec fn after_call(so_far: Seq<char>, phonemes: Option<Seq<char>>) -> Seq<char> {
    match phonemes {
        Some(p) => joined(so_far, p),
        None => so_far,
    }
}

/// Whether another call is due after one that returned `phonemes` and left
/// `remainder` of the text: the engine must have returned something, and the
/// remainder must hold more than whitespace.
pub open spec fn call_again(phonemes: Option<Seq<char>>, remainder: Option<Seq<char>>) -> bool {
    phonemes is Some && remainder is Some && !is_blank(remainder->Some_0)
}

/// Whether `s` holds nothing but whitespace.
pub fn blank(s: &str) -> (b: bool)
    ensures
        b == is_blank(s@),
{
    let chars = chars_of(s);
    let mut i: usize = 0;
    while i < chars.len()
        invariant
            i <= chars.len(),
            chars@ == s@,
            forall|j: int| 0 <= j < i ==> is_whitespace(#[trigger] chars@[j]),
        decreases chars.len() - i,
    {
        if !char_is_whitespace(chars[i]) {
            return false;
        }
        i += 1;
    }
    true
}

/// One transcription in progress: the phonemes gathered so far.
pub struct EspeakG2P {
    phonemes: String,
}

impl EspeakG2P {
    /// The phonemes gathered so far.
    pub closed spec fn transcript(&self) -> Seq<char> {
        self.phonemes@
    }

    /// A transcription before the first call of the engine.
    pub fn new() -> (g2p: EspeakG2P)
        ensures
            g2p.transcript() == Seq::<char>::empty(),
    {
        EspeakG2P { phonemes: String::new() }
    }

    /// Takes in what one call of the engine returned: the phonemes of one
    /// sentence, or `None` where it returned nothing, and what it left of the
    /// text, or `None` where it left nothing. Says whether another call on the
    /// remainder is due.
    pub fn accept(&mut self, phonemes: Option<&str>, remainder: Option<&str>) -> (more: bool)
        ensures
            final(self).transcript() == after_call(
                old(self).transcript(),
                match phonemes {
                    Some(p) => Some(p@),
                    None => None,
                },
            ),
            more == call_again(
                match phonemes {
                    Some(p) => Some(p@),
                    None => None,
                },
                match remainder {
                    Some(r) => Some(r@),
                    None => None,
                },
            ),
    {
        match phonemes {
            None => false,
            Some(p) => {
                if !p.is_empty() {
                    if !self.phonemes.as_str().is_empty() {
                        push_char(&mut self.phonemes, ' ');
                    }
                    self.phonemes.append(p);
                    proof {
                        assert(self.phonemes@ =~= joined(old(self).phonemes@, p@));
                    }
                }
                match remainder {
                    None => false,
                    Some(r) => !blank(r),
                }
            },
        }
    }

    /// The transcript of the whole text. A transcription that gathered no
    /// phonemes has failed.
    pub fn finish(self) -> (out: Result<String, TokenizeError>)
        ensures
            match out {
                Ok(ipa) => ipa@ == self.transcript() && ipa@.len() > 0,
                Err(e) => self.transcript().len() == 0 && e == TokenizeError::NoPhonemes,
            },
    {
        if self.phonemes.as_str().is_empty() {
            Err(TokenizeError::NoPhonemes)
        } else {
            Ok(self.phonemes)
        }
    }
}

} // verus!
