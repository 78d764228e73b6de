use chrono::{Datelike, FixedOffset, TimeZone, Timelike};
use chronos::clock::LocalClock;
use chronos::kinds::TimerType;
use chronos::stamp::{Stamp, MAX_DATED};
use chronos::timer::Timer;

#[test]
fn weekday_and_second_of_day_agree_with_the_calendar() {
    let instants = [0u64, 1, 86_399, 86_400, 951_782_399, 1_700_042_400, 1_700_092_799, 4_102_444_800];
    let offsets = [-86_399, -43_200, -3_600, -1, 0, 1, 3_600, 19_800, 50_400, 86_399];
    for now in instants {
        for offset in offsets {
            let clock = LocalClock::new(now, offset).unwrap();
            let zone = FixedOffset::east_opt(offset).unwrap();
            let local = zone.timestamp_opt(now as i64, 0).unwrap();
            assert_eq!(clock.weekday() as u32, local.weekday().num_days_from_monday());
            assert_eq!(clock.seconds_since_midnight() as u32, local.num_seconds_from_midnight());
        }
    }
}

#[test]
fn at_timer_lands_on_an_enabled_weekday_at_its_time_of_day() {
    let masks: [[bool; 7]; 4] = [
        [true; 7],
        [false, false, false, false, false, false, true],
        [true, false, false, false, true, false, false],
        [false, true, false, false, false, false, false],
    ];
    for now in [1_700_042_400u64, 1_700_092_798, 1_700_352_000, 1_700_006_399] {
        for offset in [-39_600, -3_600, 0, 7_200, 45_900] {
            for days in masks {
                for interval in [0u64, 1, 36_000, 86_399] {
                    let clock = LocalClock::new(now, offset).unwrap();
                    let t = Timer::new(
                        "t".to_string(),
                        TimerType::At,
                        interval,
                        vec!["true".to_string()],
                        days,
                        false,
                        &clock,
                    );
                    assert!(t.next_hit > now);
                    assert!(t.next_hit <= now + 8 * 86_400);
                    let zone = FixedOffset::east_opt(offset).unwrap();
                    let hit = zone.timestamp_opt(t.next_hit as i64, 0).unwrap();
                    assert_eq!(hit.num_seconds_from_midnight() as u64, interval);
                    assert!(days[hit.weekday().num_days_from_monday() as usize]);
                    // no earlier moment after now is on an enabled day at that time of day
                    let mut earlier = t.next_hit - 86_400;
                    while earlier > now {
                        let e = zone.timestamp_opt(earlier as i64, 0).unwrap();
                        assert!(!days[e.weekday().num_days_from_monday() as usize]);
                        earlier -= 86_400;
                    }
                }
            }
        }
    }
}

#[test]
fn stamp_in_utc_agrees_with_the_calendar() {
    for secs in [0u64, 59, 86_399, 951_782_400, 1_700_042_400, 253_402_300_799, 253_402_300_800] {
        let stamp = Stamp::utc(secs).unwrap();
        let t = chrono::DateTime::from_timestamp(secs as i64, 0).unwrap();
        let expected = format!(
            "{:04}-{:02}-{:02} {:02}:{:02}:{:02}",
            t.year(),
            t.month(),
            t.day(),
            t.hour(),
            t.minute(),
            t.second()
        );
        assert_eq!(stamp.format(4), expected);
    }
}

#[test]
fn clock_and_local_stamp_are_there_where_the_calendar_has_a_date() {
    let instants = [
        0u64,
        1_700_042_400,
        253_402_300_800,
        8_000_000_000_000,
        9_000_000_000_000,
        0x7fff_ffff_ffff_ffff,
        0x8000_0000_0000_0000,
        u64::MAX,
    ];
    let mut there = 0;
    for now in instants {
        let dated = Stamp::utc(now).is_some();
        assert_eq!(LocalClock::at(now).is_some(), dated, "{}", now);
        assert_eq!(Stamp::local(now).is_some(), dated, "{}", now);
        let expected = now <= i64::MAX as u64
            && chrono::DateTime::from_timestamp(now as i64, 0).is_some();
        assert_eq!(dated, expected, "{}", now);
        if dated {
            there += 1;
            assert_eq!(LocalClock::at(now).unwrap().now, now);
        }
    }
    assert_eq!(there, 4);
}

#[test]
fn the_calendar_has_a_date_up_to_its_last_second() {
    assert_eq!(MAX_DATED, 8_210_266_876_799);
    assert_eq!(
        Stamp::utc(MAX_DATED),
        Some(Stamp { year: 262_142, month: 12, day: 31, hour: 23, minute: 59, second: 59 })
    );
    assert_eq!(Stamp::utc(MAX_DATED + 1), None);
    assert!(chrono::DateTime::from_timestamp(MAX_DATED as i64, 0).is_some());
    assert!(chrono::DateTime::from_timestamp(MAX_DATED as i64 + 1, 0).is_none());
    for now in [0u64, 1, 1_700_042_400, 4_102_444_800, MAX_DATED - 86_400, MAX_DATED] {
        assert!(Stamp::utc(now).is_some());
        assert!(Stamp::local(now).is_some());
        assert!(LocalClock::at(now).is_some());
    }
    for now in [MAX_DATED + 1, MAX_DATED + 86_400, u64::MAX] {
        assert!(Stamp::utc(now).is_none());
        assert!(Stamp::local(now).is_none());
        assert!(LocalClock::at(now).is_none());
    }
}

#[test]
fn local_stamp_is_the_utc_stamp_of_the_instant_moved_by_the_offset() {
    for now in [0u64, 86_399, 951_782_399, 1_700_042_400, 1_720_000_000, 4_102_444_800] {
        let local = Stamp::local(now).unwrap();
        let offset = LocalClock::at(now).unwrap().offset as i64;
        let moved = now as i64 + offset;
        let t = chrono::DateTime::from_timestamp(moved, 0).unwrap();
        let expected = Stamp {
            year: t.year(),
            month: t.month(),
            day: t.day(),
            hour: t.hour(),
            minute: t.minute(),
            second: t.second(),
        };
        assert_eq!(local, expected);
    }
}
