//! The kinds of timer and of command output line, with the words that stand
//! for them in configuration files, listings and logs.

use crate::text::{copy_text, same_text};
use vstd::prelude::*;

verus! {

/// How a timer repeats.
#[derive(Clone, Copy, Debug, PartialEq, Eq, Structural)]
pub enum TimerType {
    /// Fires again and again, one interval after the other.
    Every,
    /// Fires once and is then removed.
    OneShot,
    /// Fires once per enabled weekday at a fixed local time of day.
    At,
}

impl TimerType {
    /// The word that stands for this kind in a configuration.
    pub open spec fn word(self) -> Seq<char> {
        match self {
            TimerType::Every => "every"@,
            TimerType::OneShot => "oneshot"@,
            TimerType::At => "at"@,
        }
    }

    /// The kind that a word of a configuration stands for, if any.
    pub open spec fn of_word(word: Seq<char>) -> Option<TimerType> {
        if word == "at"@ {
            Some(TimerType::At)
        } else if word == "oneshot"@ {
            Some(TimerType::OneShot)
        } else if word == "every"@ {
            Some(TimerType::Every)
        } else {
            None
        }
    }

    /// The word for this kind, as a borrowed literal.
    pub fn as_str(&self) -> (s: &'static str)
        ensures
            s@ == self.word(),
    {
        match self {
            TimerType::Every => "every",
            TimerType::OneShot => "oneshot",
            TimerType::At => "at",
        }
    }

    /// The word for this kind: `every`, `oneshot` or `at`.
    pub fn to_string(&self) -> (s: String)
        ensures
            s@ == self.word(),
    {
        copy_text(self.as_str())
    }

    /// Reads a kind from its word; any other text gives `None`.
    pub fn parse(word: &str) -> (kind: Option<TimerType>)
        ensures
            kind == Self::of_word(word@),
    {
        if same_text(word, "at") {
            Some(TimerType::At)
        } else if same_text(word, "oneshot") {
            Some(TimerType::OneShot)
        } else if same_text(word, "every") {
            Some(TimerType::Every)
        } else {
            None
        }
    }
}

/// Reading back the word of a kind gives the kind.
pub proof fn lemma_kind_word_round_trip(kind: TimerType)
    ensures
        TimerType::of_word(kind.word()) == Some(kind),
{
    reveal_strlit("every");
    reveal_strlit("oneshot");
    reveal_strlit("at");
    assert("every"@.len() == 5);
    assert("oneshot"@.len() == 7);
    assert("at"@.len() == 2);
}

/// The stream a line of command output was read from.
#[derive(Clone, Copy, Debug, PartialEq, Eq, Structural)]
pub enum CommandOutputType {
    /// Standard output.
    Info,
    /// Standard error.
    Error,
}

impl CommandOutputType {
    /// The letter that marks this stream in a log line.
    pub open spec fn letter(self) -> Seq<char> {
        match self {
            CommandOutputType::Info => "I"@,
            CommandOutputType::Error => "E"@,
        }
    }

    /// The letter for this stream, as a borrowed literal.
    pub fn as_str(&self) -> (s: &'static str)
        ensures
            s@ == self.letter(),
    {
        match self {
            CommandOutputType::Info => "I",
            CommandOutputType::Error => "E",
        }
    }

    /// The letter for this stream: `I` or `E`.
    pub fn to_string(&self) -> (s: String)
        ensures
            s@ == self.letter(),
    {
        copy_text(self.as_str())
    }
}

} // verus!
