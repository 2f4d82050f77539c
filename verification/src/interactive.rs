//! The decisions of an interactive session: what a line of input asks for,
//! and how many utterances the session has generated.

use vstd::prelude::*;
use crate::text::{chars_of, lowercased, string_of, to_lowercase, trim_chars, trimmed};

verus! {

/// What a line of input asks for.
pub enum Command {
    /// Nothing: the line is blank.
    Skip,
    /// The end of the session.
    Quit,
    /// Speech for the text.
    Speak(String),
}

/// Whether `word`, in lowercase, is one of the words that end a session.
pub open spec fn ends_session(word: Seq<char>) -> bool {
    word == "quit"@ || word == "exit"@ || word == "q"@
}

/// Whether `word` is one of the words that end a session.
fn is_quit_word(word: &str) -> (b: bool)
    ensures
        b == ends_session(word@),
{
    let w = chars_of(word);
    proof {
        reveal_strlit("quit");
        reveal_strlit("exit");
        reveal_strlit("q");
    }
    let quit = w.len() == 4 && w[0] == 'q' && w[1] == 'u' && w[2] == 'i' && w[3] == 't';
    let exit = w.len() == 4 && w[0] == 'e' && w[1] == 'x' && w[2] == 'i' && w[3] == 't';
    let q = w.len() == 1 && w[0] == 'q';
    proof {
        assert(quit <==> word@ == "quit"@) by {
            if quit {
                assert(word@ =~= "quit"@);
            }
        }
        assert(exit <==> word@ == "exit"@) by {
            if exit {
                assert(word@ =~= "exit"@);
            }
        }
        assert(q <==> word@ == "q"@) by {
            if q {
                assert(word@ =~= "q"@);
            }
        }
    }
    quit || exit || q
}

/// Reads what a line of input asks for.
pub fn parse_command(line: &str) -> (command: Command)
    ensures
        trimmed(line@).len() == 0 <==> command is Skip,
        trimmed(line@).len() > 0 && ends_session(lowercased(trimmed(line@))) <==> command is Quit,
        command is Speak ==> command->Speak_0@ == trimmed(line@),
{
    let kept = trim_chars(chars_of(line).as_slice());
    if kept.len() == 0 {
        return Command::Skip;
    }
    let text = string_of(kept.as_slice());
    let lower = to_lowercase(text.as_str());
    if is_quit_word(lower.as_str()) {
        Command::Quit
    } else {
        Command::Speak(text)
    }
}

/// The count of utterances that a session has generated.
pub struct InteractiveTTS {
    output_counter: usize,
}

impl InteractiveTTS {
    /// The number of utterances generated so far.
    pub closed spec fn generated(&self) -> nat {
        self.output_counter as nat
    }

    /// A session that has generated nothing yet.
    pub fn new() -> (session: InteractiveTTS)
        ensures
            session.generated() == 0,
    {
        InteractiveTTS { output_counter: 0 }
    }

    /// Counts one more utterance and gives its number. The count stops at the
    /// greatest number that it can hold.
    pub fn next_output(&mut self) -> (number: usize)
        ensures
            final(self).generated() == if old(self).generated() < usize::MAX {
                old(self).generated() + 1
            } else {
                old(self).generated()
            },
            number == final(self).generated(),
    {
        if self.output_counter < usize::MAX {
            self.output_counter += 1;
        }
        self.output_counter
    }

    /// The number of utterances generated so far.
    pub fn get_stats(&self) -> (count: usize)
        ensures
            count == self.generated(),
    {
        self.output_counter
    }
}

} // verus!
