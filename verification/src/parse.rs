//! Timers from configurations and back.

use crate::clock::LocalClock;
use crate::config::Config;
use crate::days::{
    any_day, lemma_mask_round_trip, mask_of, mask_shape, mask_string, mask_text, parse_mask,
    some_day,
};
use crate::interval::{
    interval_of, interval_string, interval_text, lemma_interval_round_trip, parse_interval,
};
use crate::kinds::{lemma_kind_word_round_trip, TimerType};
use crate::text::{
    copy_text, join, lemma_words_are_words, lemma_words_of_join, split_words, words,
};
use crate::timer::{first_hit, Timer, TimerView};
use vstd::prelude::*;

verus! {

/// Why a configuration gives no timer.
#[derive(Clone, Copy, Debug, PartialEq, Eq, Structural)]
pub enum ParseError {
    /// There is no `id`.
    MissingId,
    /// The `id` is empty.
    EmptyId,
    /// There is no `type`.
    MissingType,
    /// The `type` is not `at`, `oneshot` or `every`.
    UnknownType,
    /// There is no `interval`.
    MissingInterval,
    /// The `interval` is not of the form `HH:MM:SS`, or out of range.
    BadInterval,
    /// The `interval` of an `every` or `oneshot` timer is zero.
    ZeroInterval,
    /// There is no `command`.
    MissingCommand,
    /// The `command` holds no word.
    EmptyCommand,
    /// The `days` are not seven characters, each `X` or `_`.
    BadDays,
    /// The `days` enable no day.
    NoDayEnabled,
}

impl ParseError {
    /// The words that describe the error.
    pub open spec fn text(self) -> Seq<char> {
        match self {
            ParseError::MissingId => "Failed to fetch id"@,
            ParseError::EmptyId => "Property 'id' is empty"@,
            ParseError::MissingType => "Property 'type' is not specified"@,
            ParseError::UnknownType => "Acceptable values for 'type' property: at, oneshot or every"@,
            ParseError::MissingInterval => "Property 'interval' is not specified"@,
            ParseError::BadInterval => "Failed to parse interval: it must be HH:MM:SS, below 24:00:00"@,
            ParseError::ZeroInterval => "Property 'interval' must not be zero for this type"@,
            ParseError::MissingCommand => "Property 'command' is not specified"@,
            ParseError::EmptyCommand => "Property 'command' is empty"@,
            ParseError::BadDays => "Property 'days' value is wrong, it must be 7 character and can contain only 'X' or '_'"@,
            ParseError::NoDayEnabled => "Property 'days' value is wrong, it must enable at least one day"@,
        }
    }

    /// The words that describe the error.
    pub fn message(&self) -> (s: String)
        ensures
            s@ == self.text(),
    {
        let words: &'static str = match self {
            ParseError::MissingId => "Failed to fetch id",
            ParseError::EmptyId => "Property 'id' is empty",
            ParseError::MissingType => "Property 'type' is not specified",
            ParseError::UnknownType => "Acceptable values for 'type' property: at, oneshot or every",
            ParseError::MissingInterval => "Property 'interval' is not specified",
            ParseError::BadInterval => "Failed to parse interval: it must be HH:MM:SS, below 24:00:00",
            ParseError::ZeroInterval => "Property 'interval' must not be zero for this type",
            ParseError::MissingCommand => "Property 'command' is not specified",
            ParseError::EmptyCommand => "Property 'command' is empty",
            ParseError::BadDays => "Property 'days' value is wrong, it must be 7 character and can contain only 'X' or '_'",
            ParseError::NoDayEnabled => "Property 'days' value is wrong, it must enable at least one day",
        };
        copy_text(words)
    }
}

/// The mask that enables every day.
pub open spec fn every_day() -> Seq<bool> {
    Seq::new(7, |i: int| true)
}

/// The mask of a configuration: that of its `days`, and every day where it has none.
pub open spec fn days_of(config: Map<Seq<char>, Seq<char>>) -> Seq<bool> {
    if config.contains_key("days"@) {
        mask_of(config["days"@])
    } else {
        every_day()
    }
}

/// The timer that a configuration describes, scheduled at the instant of
/// the clock, or the first thing that is wrong with the configuration, in
/// the order `id`, `type`, `interval`, `command`, `days`.
pub open spec fn parsed(config: Map<Seq<char>, Seq<char>>, clock: LocalClock) -> Result<
    TimerView,
    ParseError,
> {
    if !config.contains_key("id"@) {
        Err(ParseError::MissingId)
    } else if config["id"@].len() == 0 {
        Err(ParseError::EmptyId)
    } else if !config.contains_key("type"@) {
        Err(ParseError::MissingType)
    } else if TimerType::of_word(config["type"@]) is None {
        Err(ParseError::UnknownType)
    } else if !config.contains_key("interval"@) {
        Err(ParseError::MissingInterval)
    } else if interval_of(config["interval"@]) is None {
        Err(ParseError::BadInterval)
    } else if interval_of(config["interval"@])->0 == 0 && TimerType::of_word(config["type"@])->0
        != TimerType::At {
        Err(ParseError::ZeroInterval)
    } else if !config.contains_key("command"@) {
        Err(ParseError::MissingCommand)
    } else if words(config["command"@]).len() == 0 {
        Err(ParseError::EmptyCommand)
    } else if config.contains_key("days"@) && !mask_shape(config["days"@]) {
        Err(ParseError::BadDays)
    } else if !some_day(days_of(config)) {
        Err(ParseError::NoDayEnabled)
    } else {
        let kind = TimerType::of_word(config["type"@])->0;
        let interval = interval_of(config["interval"@])->0;
        Ok(
            TimerView {
                id: config["id"@],
                kind,
                interval,
                command: words(config["command"@]),
                next_hit: first_hit(kind, interval, days_of(config), clock) as nat,
                days: days_of(config),
                dynamic: false,
            },
        )
    }
}

/// The configuration that describes a timer: its `id`, `type`, `interval`,
/// `command` and `days`, each as text.
pub open spec fn config_of(timer: TimerView) -> Map<Seq<char>, Seq<char>> {
    Map::<Seq<char>, Seq<char>>::empty().insert("id"@, timer.id).insert(
        "type"@,
        timer.kind.word(),
    ).insert("interval"@, interval_text(timer.interval)).insert(
        "command"@,
        join(timer.command),
    ).insert("days"@, mask_text(timer.days))
}

proof fn lemma_keys_differ()
    ensures
        "id"@ != "type"@,
        "id"@ != "interval"@,
        "id"@ != "command"@,
        "id"@ != "days"@,
        "type"@ != "interval"@,
        "type"@ != "command"@,
        "type"@ != "days"@,
        "interval"@ != "command"@,
        "interval"@ != "days"@,
        "command"@ != "days"@,
{
    reveal_strlit("id");
    reveal_strlit("type");
    reveal_strlit("interval");
    reveal_strlit("command");
    reveal_strlit("days");
    assert("id"@.len() == 2);
    assert("type"@.len() == 4);
    assert("interval"@.len() == 8);
    assert("command"@.len() == 7);
    assert("days"@.len() == 4);
    assert("type"@[0] == 't');
    assert("days"@[0] == 'd');
}

/// A well-formed timer is read back from its configuration: the same timer,
/// scheduled at the instant of the clock and said to come from a file.
pub proof fn lemma_parse_of_config(timer: TimerView, clock: LocalClock)
    requires
        timer.wf(),
    ensures
        parsed(config_of(timer), clock) == Ok::<TimerView, ParseError>(
            timer.with_next_hit(
                first_hit(timer.kind, timer.interval, timer.days, clock) as nat,
            ).with_dynamic(false),
        ),
{
    lemma_keys_differ();
    lemma_kind_word_round_trip(timer.kind);
    lemma_interval_round_trip(timer.interval);
    lemma_words_of_join(timer.command);
    lemma_mask_round_trip(timer.days);
    let config = config_of(timer);
    assert(config["id"@] == timer.id);
    assert(config["type"@] == timer.kind.word());
    assert(config["interval"@] == interval_text(timer.interval));
    assert(config["command"@] == join(timer.command));
    assert(config["days"@] == mask_text(timer.days));
    assert(days_of(config) == timer.days);
}

impl Timer {
    /// Reads a timer from a configuration and schedules it at the instant of
    /// the clock. The `days` may be left out and are then all enabled; any
    /// other key that is left out, and any value that is not as it must be,
    /// gives an error and no timer.
    pub fn from_config(config: &Config, clock: &LocalClock) -> (r: Result<Timer, ParseError>)
        requires
            clock.wf(),
        ensures
            match r {
                Ok(timer) => parsed(config@, *clock) == Ok::<TimerView, ParseError>(timer@)
                    && timer@.wf(),
                Err(e) => parsed(config@, *clock) == Err::<TimerView, ParseError>(e),
            },
    {
        let id = match config.get("id") {
            Some(id) => id.clone(),
            None => return Err(ParseError::MissingId),
        };
        if id.as_str().unicode_len() == 0 {
            return Err(ParseError::EmptyId);
        }
        let kind = match config.get("type") {
            Some(word) => match TimerType::parse(word.as_str()) {
                Some(kind) => kind,
                None => return Err(ParseError::UnknownType),
            },
            None => return Err(ParseError::MissingType),
        };
        let interval = match config.get("interval") {
            Some(text) => match parse_interval(text.as_str()) {
                Some(interval) => interval,
                None => return Err(ParseError::BadInterval),
            },
            None => return Err(ParseError::MissingInterval),
        };
        let is_at = match kind {
            TimerType::At => true,
            _ => false,
        };
        if interval == 0 && !is_at {
            return Err(ParseError::ZeroInterval);
        }
        let command = match config.get("command") {
            Some(line) => split_words(line.as_str()),
            None => return Err(ParseError::MissingCommand),
        };
        if command.len() == 0 {
            return Err(ParseError::EmptyCommand);
        }
        let days = match config.get("days") {
            Some(text) => match parse_mask(text.as_str()) {
                Some(days) => days,
                None => return Err(ParseError::BadDays),
            },
            None => {
                let all: [bool; 7] = [true; 7];
                assert(all@ =~= every_day());
                all
            },
        };
        if !any_day(&days) {
            return Err(ParseError::NoDayEnabled);
        }
        proof {
            lemma_words_are_words(config@["command"@]);
        }
        Ok(Timer::new(id, kind, interval, command, days, false, clock))
    }

    /// The configuration that describes the timer.
    pub fn to_config(&self) -> (config: Config)
        ensures
            config@ == config_of(self@),
    {
        let mut config = Config::new();
        config.insert("id", self.id.as_str());
        config.insert("type", self.kind.as_str());
        config.insert("interval", interval_string(self.interval).as_str());
        config.insert("command", self.command_line().as_str());
        config.insert("days", mask_string(&self.days).as_str());
        config
    }
}

} // verus!
