use chronos::clock::LocalClock;
use chronos::config::Config;
use chronos::days::{any_day, days_until_next, mask_string, parse_mask};
use chronos::interval::{interval_string, parse_interval};
use chronos::kinds::{CommandOutputType, TimerType};
use chronos::parse::ParseError;
use chronos::timer::Timer;

const WED_10: u64 = 1_700_042_400; // Wednesday 2023-11-15 10:00:00 UTC
const WED_MIDNIGHT: u64 = 1_700_006_400;
const DAY: u64 = 86_400;

fn utc(now: u64) -> LocalClock {
    LocalClock::new(now, 0).unwrap()
}

fn config(pairs: &[(&str, &str)]) -> Config {
    let mut c = Config::new();
    for (k, v) in pairs {
        c.insert(k, v);
    }
    c
}

fn words(list: &[&str]) -> Vec<String> {
    list.iter().map(|w| w.to_string()).collect()
}

fn mask(text: &str) -> [bool; 7] {
    parse_mask(text).unwrap()
}

#[test]
fn kind_words() {
    assert_eq!(TimerType::Every.to_string(), "every");
    assert_eq!(TimerType::OneShot.to_string(), "oneshot");
    assert_eq!(TimerType::At.to_string(), "at");
    assert_eq!(TimerType::parse("at"), Some(TimerType::At));
    assert_eq!(TimerType::parse("oneshot"), Some(TimerType::OneShot));
    assert_eq!(TimerType::parse("every"), Some(TimerType::Every));
    assert_eq!(TimerType::parse("Every"), None);
    assert_eq!(TimerType::parse(""), None);
    assert_eq!(CommandOutputType::Info.to_string(), "I");
    assert_eq!(CommandOutputType::Error.to_string(), "E");
}

#[test]
fn mask_is_read_monday_first() {
    assert_eq!(mask("X___X__"), [true, false, false, false, true, false, false]);
    assert_eq!(mask("______X"), [false, false, false, false, false, false, true]);
    assert_eq!(mask_string(&[true, false, false, false, true, false, false]), "X___X__");
}

#[test]
fn mask_of_wrong_shape_is_refused() {
    assert_eq!(parse_mask("XXXXXX"), None);
    assert_eq!(parse_mask("XXXXXXXX"), None);
    assert_eq!(parse_mask("XXXxXXX"), None);
    assert_eq!(parse_mask(""), None);
    assert_eq!(parse_mask("_______"), Some([false; 7]));
    assert!(!any_day(&[false; 7]));
    assert!(any_day(&mask("___X___")));
}

#[test]
fn gap_to_next_enabled_day() {
    let mon_fri = mask("X___X__");
    assert_eq!(days_until_next(&mon_fri, 2), 2); // Wednesday to Friday
    assert_eq!(days_until_next(&mon_fri, 4), 3); // Friday to Monday
    assert_eq!(days_until_next(&mon_fri, 0), 4); // Monday to Friday
    assert_eq!(days_until_next(&mask("______X"), 6), 7); // only Sunday, on a Sunday
    assert_eq!(days_until_next(&mask("XXXXXXX"), 6), 1);
}

#[test]
fn interval_text_is_read() {
    assert_eq!(parse_interval("00:00:02"), Some(2));
    assert_eq!(parse_interval("23:59:59"), Some(86_399));
    assert_eq!(parse_interval("09:00:00"), Some(32_400));
    assert_eq!(parse_interval("1:2:3"), Some(3_723));
    assert_eq!(parse_interval("00:00:00"), Some(0));
    // white space may precede a field
    assert_eq!(parse_interval(" 1:00:00"), Some(3_600));
    assert_eq!(parse_interval("01:\t2: 3"), Some(3_723));
    // a leap second counts as the second before it
    assert_eq!(parse_interval("23:59:60"), Some(86_399));
    assert_eq!(parse_interval("00:00:60"), Some(59));
}

#[test]
fn interval_text_out_of_form_is_refused() {
    assert_eq!(parse_interval("24:00:00"), None);
    assert_eq!(parse_interval("00:60:00"), None);
    assert_eq!(parse_interval("00:00:61"), None);
    assert_eq!(parse_interval("00:00"), None);
    assert_eq!(parse_interval("00:00:00:00"), None);
    assert_eq!(parse_interval("aa:00:00"), None);
    assert_eq!(parse_interval("001:00:00"), None);
    assert_eq!(parse_interval("-1:00:00"), None);
    assert_eq!(parse_interval(""), None);
    assert_eq!(parse_interval("1 :00:00"), None);
    assert_eq!(parse_interval("1:00:00 "), None);
    assert_eq!(parse_interval("+1:00:00"), None);
}

#[test]
fn interval_is_written_with_two_digits() {
    assert_eq!(interval_string(0), "00:00:00");
    assert_eq!(interval_string(5), "00:00:05");
    assert_eq!(interval_string(3_723), "01:02:03");
    assert_eq!(interval_string(86_399), "23:59:59");
}

#[test]
fn interval_round_trip_on_values() {
    for v in [0u64, 1, 59, 60, 3_599, 3_600, 43_200, 86_399] {
        assert_eq!(parse_interval(&interval_string(v)), Some(v));
    }
}

#[test]
fn clock_parts() {
    let clock = utc(WED_10);
    assert_eq!(clock.seconds_since_midnight(), 36_000);
    assert_eq!(clock.weekday(), 2);
    // the same instant seen from UTC+14 is already Thursday, 00:00:00
    let east = LocalClock::new(WED_10, 14 * 3600).unwrap();
    assert_eq!(east.seconds_since_midnight(), 0);
    assert_eq!(east.weekday(), 3);
    // and from UTC-11 it is still Tuesday, 23:00:00
    let west = LocalClock::new(WED_10, -11 * 3600).unwrap();
    assert_eq!(west.seconds_since_midnight(), 23 * 3600);
    assert_eq!(west.weekday(), 1);
    // the day of the epoch was a Thursday
    assert_eq!(utc(0).weekday(), 3);
    // just before the epoch's local midnight, west of Greenwich: Wednesday
    let early = LocalClock::new(0, -3600).unwrap();
    assert_eq!(early.weekday(), 2);
    assert_eq!(early.seconds_since_midnight(), 23 * 3600);
}

#[test]
fn clock_out_of_range_is_refused() {
    assert_eq!(LocalClock::new(0, 86_400), None);
    assert_eq!(LocalClock::new(0, -86_400), None);
    assert_eq!(LocalClock::new(u64::MAX, 0), None);
    assert_eq!(LocalClock::new(0x8000_0000_0000_0000, 0), None);
    assert!(LocalClock::new(0x7fff_ffff_ffff_ffff, 86_399).is_some());
    assert_eq!(LocalClock::at(u64::MAX), None);
}

#[test]
fn every_timer_starts_one_interval_from_now() {
    let t = Timer::new(
        "t1".to_string(),
        TimerType::Every,
        2,
        words(&["echo", "hello"]),
        [true; 7],
        false,
        &utc(WED_10),
    );
    assert_eq!(t.next_hit, WED_10 + 2);
    assert_eq!(t.id, "t1");
    assert!(!t.dynamic);
    assert_eq!(t.command_line(), "echo hello");
}

#[test]
fn every_timer_on_a_disabled_day_starts_on_the_next_enabled_day() {
    // Monday and Friday only, created on a Wednesday at 10:00:00
    let t = Timer::new(
        "t".to_string(),
        TimerType::Every,
        3_600,
        words(&["true"]),
        mask("X___X__"),
        false,
        &utc(WED_10),
    );
    assert_eq!(t.next_hit, WED_MIDNIGHT + 2 * DAY + 3_600);
}

#[test]
fn day_skip() {
    // On a Wednesday at 10:00:00 local time, an At timer for 09:00:00 on
    // Mondays and Fridays lands on Friday 09:00:00 local time.
    let offset = 3_600;
    let now = WED_10 - 3_600; // 10:00:00 local
    let clock = LocalClock::new(now, offset).unwrap();
    assert_eq!(clock.seconds_since_midnight(), 36_000);
    assert_eq!(clock.weekday(), 2);
    let t = Timer::new(
        "t4".to_string(),
        TimerType::At,
        9 * 3_600,
        words(&["true"]),
        mask("X___X__"),
        false,
        &clock,
    );
    assert_eq!(t.next_hit, 1_700_211_600 - 3_600);
}

#[test]
fn at_timer_later_today() {
    let t = Timer::new(
        "t".to_string(),
        TimerType::At,
        11 * 3_600,
        words(&["true"]),
        [true; 7],
        false,
        &utc(WED_10),
    );
    assert_eq!(t.next_hit, WED_MIDNIGHT + 11 * 3_600);
}

#[test]
fn at_timer_whose_moment_is_now_moves_to_the_next_day() {
    let t = Timer::new(
        "t".to_string(),
        TimerType::At,
        10 * 3_600,
        words(&["true"]),
        [true; 7],
        false,
        &utc(WED_10),
    );
    assert_eq!(t.next_hit, WED_MIDNIGHT + DAY + 10 * 3_600);
}

#[test]
fn at_across_midnight() {
    // At 23:59:58 local time, an At timer for 23:59:59 fires first at
    // 23:59:59 today and next at 23:59:59 tomorrow.
    let now = 1_700_092_798;
    let mut t = Timer::new(
        "t3".to_string(),
        TimerType::At,
        86_399,
        words(&["true"]),
        [true; 7],
        false,
        &utc(now),
    );
    assert_eq!(t.next_hit, 1_700_092_799);
    assert!(!t.should_run(now));
    assert!(t.should_run(now + 1));
    t.reschedule(&utc(now + 1));
    assert_eq!(t.next_hit, 1_700_179_199);
}

#[test]
fn at_one_second_past_midnight_created_late_in_the_day() {
    // The interval of an At timer is a time of day: 00:00:01 created at
    // 23:59:58 is due three seconds later, at 00:00:01 of the next day.
    let now = 1_700_092_798;
    let t = Timer::new(
        "t".to_string(),
        TimerType::At,
        1,
        words(&["true"]),
        [true; 7],
        false,
        &utc(now),
    );
    assert_eq!(t.next_hit, now + 3);
}

#[test]
fn at_midnight_only_sunday() {
    // only Sunday enabled, 00:00:00: the next Sunday's local midnight
    let sunday = mask("______X");
    let t = Timer::new(
        "t".to_string(),
        TimerType::At,
        0,
        words(&["true"]),
        sunday,
        false,
        &utc(WED_10),
    );
    assert_eq!(t.next_hit, 1_700_352_000);
    // on that Sunday, at its midnight, the moment is not to come any more: a week later
    let mut t = t;
    assert!(t.fires(&utc(1_700_352_000)));
    t.reschedule(&utc(1_700_352_000));
    assert_eq!(t.next_hit, 1_700_956_800);
    // with an offset: local midnight, not that of UTC
    let clock = LocalClock::new(WED_10, -5 * 3_600).unwrap();
    let t = Timer::new(
        "t".to_string(),
        TimerType::At,
        0,
        words(&["true"]),
        sunday,
        false,
        &clock,
    );
    assert_eq!(t.next_hit, 1_700_352_000 + 5 * 3_600);
}

#[test]
fn should_run_at_the_very_second() {
    let t = Timer::new(
        "t".to_string(),
        TimerType::Every,
        5,
        words(&["true"]),
        [true; 7],
        false,
        &utc(WED_10),
    );
    assert!(!t.should_run(WED_10 + 4));
    assert!(t.should_run(WED_10 + 5));
    assert!(t.should_run(WED_10 + 6));
}

#[test]
fn every_timer_moves_on_by_its_interval() {
    let mut t = Timer::new(
        "t".to_string(),
        TimerType::Every,
        86_399,
        words(&["true"]),
        [true; 7],
        false,
        &utc(WED_10),
    );
    let mut due = WED_10 + 86_399;
    for _ in 0..10 {
        assert_eq!(t.next_hit, due);
        t.reschedule(&utc(due));
        due += 86_399;
    }
    assert_eq!(t.next_hit, WED_10 + 11 * 86_399);
}

#[test]
fn every_timer_catches_up_in_whole_intervals() {
    let mut t = Timer::new(
        "t".to_string(),
        TimerType::Every,
        10,
        words(&["true"]),
        [true; 7],
        false,
        &utc(WED_10),
    );
    // due at +10, the tick comes at +47: the next firing is at +50
    t.reschedule(&utc(WED_10 + 47));
    assert_eq!(t.next_hit, WED_10 + 50);
    // the tick comes exactly at a multiple: strictly later than the tick
    t.reschedule(&utc(WED_10 + 70));
    assert_eq!(t.next_hit, WED_10 + 80);
}

#[test]
fn one_shot_is_left_as_it_is_by_reschedule() {
    let mut t = Timer::new(
        "t".to_string(),
        TimerType::OneShot,
        1,
        words(&["true"]),
        [true; 7],
        false,
        &utc(WED_10),
    );
    t.reschedule(&utc(WED_10 + 1));
    assert_eq!(t.next_hit, WED_10 + 1);
}

#[test]
fn timer_from_config() {
    let c = config(&[
        ("id", "t1"),
        ("type", "every"),
        ("interval", "00:00:02"),
        ("command", "echo   hello\tworld "),
        ("days", "XXXXX__"),
    ]);
    let t = Timer::from_config(&c, &utc(WED_10)).unwrap();
    assert_eq!(t.id, "t1");
    assert_eq!(t.kind, TimerType::Every);
    assert_eq!(t.interval, 2);
    assert_eq!(t.command, words(&["echo", "hello", "world"]));
    assert_eq!(t.days, [true, true, true, true, true, false, false]);
    assert_eq!(t.next_hit, WED_10 + 2);
    assert!(!t.dynamic);
}

#[test]
fn days_default_to_every_day() {
    let c = config(&[("id", "t"), ("type", "at"), ("interval", "00:00:00"), ("command", "true")]);
    let t = Timer::from_config(&c, &utc(WED_10)).unwrap();
    assert_eq!(t.days, [true; 7]);
    assert_eq!(t.interval, 0);
    assert_eq!(t.next_hit, WED_MIDNIGHT + DAY);
}

#[test]
fn empty_day_mask_is_rejected() {
    let c = config(&[
        ("id", "t"),
        ("type", "every"),
        ("interval", "00:00:02"),
        ("command", "true"),
        ("days", "_______"),
    ]);
    assert_eq!(Timer::from_config(&c, &utc(WED_10)).unwrap_err(), ParseError::NoDayEnabled);
}

#[test]
fn each_parse_error() {
    let clock = utc(WED_10);
    let full = [
        ("id", "t"),
        ("type", "every"),
        ("interval", "00:00:02"),
        ("command", "true"),
        ("days", "XXXXXXX"),
    ];
    let without = |key: &str| {
        let kept: Vec<(&str, &str)> = full.iter().filter(|(k, _)| *k != key).cloned().collect();
        config(&kept)
    };
    let with = |key: &str, value: &'static str| {
        let mut c = config(&full);
        c.insert(key, value);
        c
    };
    let fault = |c: Config| Timer::from_config(&c, &clock).unwrap_err();
    assert_eq!(fault(without("id")), ParseError::MissingId);
    assert_eq!(fault(with("id", "")), ParseError::EmptyId);
    assert_eq!(fault(without("type")), ParseError::MissingType);
    assert_eq!(fault(with("type", "daily")), ParseError::UnknownType);
    assert_eq!(fault(without("interval")), ParseError::MissingInterval);
    assert_eq!(fault(with("interval", "24:00:00")), ParseError::BadInterval);
    assert_eq!(fault(with("interval", "soon")), ParseError::BadInterval);
    assert_eq!(fault(with("interval", "00:00:00")), ParseError::ZeroInterval);
    assert_eq!(fault(without("command")), ParseError::MissingCommand);
    assert_eq!(fault(with("command", "  \t ")), ParseError::EmptyCommand);
    assert_eq!(fault(with("days", "XXXXXX")), ParseError::BadDays);
    assert_eq!(fault(with("days", "XXXXXXY")), ParseError::BadDays);
    assert_eq!(fault(with("days", "_______")), ParseError::NoDayEnabled);
    // the first thing that is wrong is reported
    assert_eq!(fault(config(&[])), ParseError::MissingId);
    assert_eq!(fault(config(&[("id", "t"), ("interval", "x")])), ParseError::MissingType);
    // a oneshot timer must not have a zero interval either, an at timer may
    let mut c = config(&full);
    c.insert("type", "oneshot");
    c.insert("interval", "00:00:00");
    assert_eq!(fault(c), ParseError::ZeroInterval);
    let mut c = config(&full);
    c.insert("type", "at");
    c.insert("interval", "00:00:00");
    assert!(Timer::from_config(&c, &clock).is_ok());
}

#[test]
fn parse_error_messages() {
    assert_eq!(ParseError::MissingId.message(), "Failed to fetch id");
    assert_eq!(ParseError::MissingType.message(), "Property 'type' is not specified");
    assert_eq!(
        ParseError::UnknownType.message(),
        "Acceptable values for 'type' property: at, oneshot or every"
    );
    assert_eq!(ParseError::MissingInterval.message(), "Property 'interval' is not specified");
    assert_eq!(ParseError::MissingCommand.message(), "Property 'command' is not specified");
    assert_eq!(
        ParseError::BadDays.message(),
        "Property 'days' value is wrong, it must be 7 character and can contain only 'X' or '_'"
    );
    assert!(ParseError::BadInterval.message().starts_with("Failed to parse interval: "));
    assert!(!ParseError::EmptyId.message().is_empty());
    assert!(!ParseError::ZeroInterval.message().is_empty());
    assert!(!ParseError::EmptyCommand.message().is_empty());
    assert!(!ParseError::NoDayEnabled.message().is_empty());
}

#[test]
fn parse_of_serialize_gives_the_timer_back() {
    let clock = utc(WED_10);
    let t = Timer::new(
        "backup".to_string(),
        TimerType::At,
        9 * 3_600 + 5,
        words(&["tar", "-czf", "/tmp/x.tgz", "/home"]),
        mask("X_X_X__"),
        false,
        &clock,
    );
    let c = t.to_config();
    assert_eq!(c.get("id").unwrap(), "backup");
    assert_eq!(c.get("type").unwrap(), "at");
    assert_eq!(c.get("interval").unwrap(), "09:00:05");
    assert_eq!(c.get("command").unwrap(), "tar -czf /tmp/x.tgz /home");
    assert_eq!(c.get("days").unwrap(), "X_X_X__");
    let back = Timer::from_config(&c, &clock).unwrap();
    assert_eq!(back.id, t.id);
    assert_eq!(back.kind, t.kind);
    assert_eq!(back.interval, t.interval);
    assert_eq!(back.command, t.command);
    assert_eq!(back.days, t.days);
    assert_eq!(back.next_hit, t.next_hit);
    assert_eq!(back.dynamic, t.dynamic);
}

#[test]
fn snapshot_is_a_copy() {
    let t = Timer::new(
        "t".to_string(),
        TimerType::Every,
        7,
        words(&["a", "b"]),
        mask("XX_____"),
        true,
        &utc(WED_10),
    );
    let s = t.snapshot();
    assert_eq!(s.id, t.id);
    assert_eq!(s.kind, t.kind);
    assert_eq!(s.interval, t.interval);
    assert_eq!(s.command, t.command);
    assert_eq!(s.next_hit, t.next_hit);
    assert_eq!(s.days, t.days);
    assert_eq!(s.dynamic, t.dynamic);
}
