use chronos::clock::LocalClock;
use chronos::config::Config;
use chronos::kinds::TimerType;
use chronos::loader::start_timer_refresh;
use chronos::parse::ParseError;
use chronos::registry::{ControlError, Registry};
use chronos::timer::Timer;

const T: u64 = 1_700_042_400; // Wednesday 2023-11-15 10:00:00 UTC

fn utc(now: u64) -> LocalClock {
    LocalClock::new(now, 0).unwrap()
}

fn request(id: &str, kind: &str, interval: &str, command: &str, days: &str) -> Config {
    let mut c = Config::new();
    c.insert("id", id);
    c.insert("type", kind);
    c.insert("interval", interval);
    c.insert("command", command);
    c.insert("days", days);
    c
}

fn file(kind: &str, interval: &str, command: &str) -> Config {
    let mut c = Config::new();
    c.insert("type", kind);
    c.insert("interval", interval);
    c.insert("command", command);
    c
}

fn ids(registry: &Registry) -> Vec<String> {
    registry.list_active_timers().unwrap().into_iter().map(|l| l.id).collect()
}

fn state(registry: &Registry) -> Vec<(String, u64, u64, bool)> {
    ids(registry)
        .iter()
        .map(|id| {
            let t = registry.get(id).unwrap();
            (t.id, t.interval, t.next_hit, t.dynamic)
        })
        .collect()
}

#[test]
fn new_registry_is_empty() {
    let r = Registry::new();
    assert_eq!(r.len(), 0);
    assert_eq!(r.find("a"), None);
    assert!(r.get("a").is_none());
}

#[test]
fn create_marks_the_timer_dynamic() {
    let mut r = Registry::new();
    assert_eq!(r.create(&request("a", "every", "00:00:05", "true", "XXXXXXX"), &utc(T)), Ok(()));
    let t = r.get("a").unwrap();
    assert!(t.dynamic);
    assert_eq!(t.next_hit, T + 5);
    assert_eq!(r.len(), 1);
}

#[test]
fn create_refuses_an_active_identifier() {
    let mut r = Registry::new();
    r.create(&request("a", "every", "00:00:05", "true", "XXXXXXX"), &utc(T)).unwrap();
    let again = r.create(&request("a", "at", "01:00:00", "false", "XXXXXXX"), &utc(T + 1));
    assert_eq!(again, Err(ControlError::AlreadyExists));
    assert_eq!(r.len(), 1);
    let t = r.get("a").unwrap();
    assert_eq!(t.kind, TimerType::Every);
    assert_eq!(t.next_hit, T + 5);
}

#[test]
fn create_refuses_what_is_no_timer() {
    let mut r = Registry::new();
    let bad = r.create(&request("a", "every", "00:00:05", "true", "_______"), &utc(T));
    assert_eq!(bad, Err(ControlError::Parse(ParseError::NoDayEnabled)));
    assert_eq!(r.len(), 0);
}

#[test]
fn ids_stay_distinct() {
    let mut r = Registry::new();
    for id in ["a", "b", "a", "c", "b", "a"] {
        let _ = r.create(&request(id, "every", "00:00:05", "true", "XXXXXXX"), &utc(T));
        let _ = r.refresh(id, file("every", "00:00:07", "true"), &utc(T));
    }
    assert_eq!(ids(&r), vec!["a", "b", "c"]);
}

#[test]
fn purge_removes_the_timer() {
    let mut r = Registry::new();
    for id in ["a", "b", "c"] {
        r.create(&request(id, "every", "00:00:05", "true", "XXXXXXX"), &utc(T)).unwrap();
    }
    assert_eq!(r.purge("b"), Ok(()));
    assert_eq!(ids(&r), vec!["a", "c"]);
    assert_eq!(r.find("c"), Some(1));
}

#[test]
fn purge_of_an_unknown_identifier_is_not_found() {
    let mut r = Registry::new();
    r.create(&request("a", "every", "00:00:05", "true", "XXXXXXX"), &utc(T)).unwrap();
    assert_eq!(r.purge("b"), Err(ControlError::NotFound));
    assert_eq!(ids(&r), vec!["a"]);
}

#[test]
fn create_then_purge_leaves_the_registry_unchanged() {
    let mut r = Registry::new();
    r.create(&request("a", "every", "00:00:05", "true", "XXXXXXX"), &utc(T)).unwrap();
    r.refresh("b", file("at", "12:00:00", "true"), &utc(T)).unwrap();
    let before = state(&r);
    r.create(&request("t", "oneshot", "00:00:01", "true", "XXXXXXX"), &utc(T + 3)).unwrap();
    assert_eq!(r.len(), 3);
    r.purge("t").unwrap();
    assert_eq!(state(&r), before);
}

#[test]
fn refresh_twice_is_the_same_as_once() {
    let mut r = Registry::new();
    r.create(&request("a", "every", "00:00:05", "true", "XXXXXXX"), &utc(T)).unwrap();
    r.create(&request("t6", "every", "00:00:09", "true", "XXXXXXX"), &utc(T)).unwrap();
    r.create(&request("z", "every", "00:00:05", "true", "XXXXXXX"), &utc(T)).unwrap();
    r.refresh("t6", file("every", "00:01:00", "true"), &utc(T)).unwrap();
    let once = state(&r);
    r.refresh("t6", file("every", "00:01:00", "true"), &utc(T)).unwrap();
    assert_eq!(state(&r), once);
    assert_eq!(ids(&r), vec!["a", "t6", "z"]);
}

#[test]
fn refresh_replaces_in_place() {
    let mut r = Registry::new();
    r.create(&request("a", "every", "00:00:05", "true", "XXXXXXX"), &utc(T)).unwrap();
    r.refresh("t6", file("every", "00:01:00", "true"), &utc(T)).unwrap();
    r.create(&request("z", "every", "00:00:05", "true", "XXXXXXX"), &utc(T)).unwrap();
    assert_eq!(r.get("t6").unwrap().next_hit, T + 60);
    r.refresh("t6", file("every", "00:00:05", "true"), &utc(T + 1)).unwrap();
    assert_eq!(ids(&r), vec!["a", "t6", "z"]);
    let t = r.get("t6").unwrap();
    assert_eq!(t.interval, 5);
    assert_eq!(t.next_hit, T + 6);
    assert!(!t.dynamic);
    // the next firing uses the 5-second period
    assert!(r.tick(&utc(T + 5)).iter().all(|t| t.id != "t6"));
    let fired = r.tick(&utc(T + 6));
    assert_eq!(fired.iter().filter(|t| t.id == "t6").count(), 1);
    assert_eq!(r.get("t6").unwrap().next_hit, T + 11);
}

#[test]
fn refresh_takes_the_identifier_of_the_request() {
    let mut r = Registry::new();
    let mut c = file("every", "00:00:05", "true");
    c.insert("id", "other");
    r.refresh("mine", c, &utc(T)).unwrap();
    assert_eq!(ids(&r), vec!["mine"]);
}

#[test]
fn refresh_with_a_bad_file_changes_nothing() {
    let mut r = Registry::new();
    r.refresh("a", file("every", "00:00:05", "true"), &utc(T)).unwrap();
    let before = state(&r);
    let bad = r.refresh("a", file("every", "25:00:00", "true"), &utc(T));
    assert_eq!(bad, Err(ControlError::Parse(ParseError::BadInterval)));
    assert_eq!(state(&r), before);
}

#[test]
fn startup_load_puts_timers_in_order() {
    let mut r = Registry::new();
    let clock = utc(T);
    let timers: Vec<Timer> = ["a", "b", "a", "c"]
        .iter()
        .enumerate()
        .map(|(i, id)| {
            Timer::new(
                id.to_string(),
                TimerType::Every,
                10 + i as u64,
                vec!["true".to_string()],
                [true; 7],
                false,
                &clock,
            )
        })
        .collect();
    assert_eq!(start_timer_refresh(&mut r, timers), Ok(()));
    assert_eq!(ids(&r), vec!["a", "b", "c"]);
    assert_eq!(r.get("a").unwrap().interval, 12);
}

#[test]
fn every_timer_basic() {
    let mut r = Registry::new();
    r.create(&request("t1", "every", "00:00:02", "echo hello", "XXXXXXX"), &utc(T)).unwrap();
    let mut fired_at = Vec::new();
    for tick in T..=T + 7 {
        let fired = r.tick(&utc(tick));
        for t in &fired {
            assert_eq!(t.id, "t1");
            assert_eq!(t.command_line(), "echo hello");
            assert_eq!(t.next_hit, tick);
            fired_at.push(tick);
        }
    }
    assert_eq!(fired_at, vec![T + 2, T + 4, T + 6]);
}

#[test]
fn oneshot_retirement() {
    let mut r = Registry::new();
    r.create(&request("t2", "oneshot", "00:00:01", "true", "XXXXXXX"), &utc(T)).unwrap();
    assert_eq!(r.tick(&utc(T)).len(), 0);
    assert_eq!(ids(&r), vec!["t2"]);
    let fired = r.tick(&utc(T + 1));
    assert_eq!(fired.len(), 1);
    assert_eq!(fired[0].id, "t2");
    assert!(ids(&r).is_empty());
    assert_eq!(r.tick(&utc(T + 2)).len(), 0);
}

#[test]
fn purge_then_refire() {
    let mut r = Registry::new();
    r.create(&request("t5", "every", "00:00:01", "true", "XXXXXXX"), &utc(T)).unwrap();
    let mut count = 0;
    for tick in T + 1..=T + 3 {
        count += r.tick(&utc(tick)).len();
    }
    assert_eq!(count, 3);
    r.purge("t5").unwrap();
    for tick in T + 4..=T + 10 {
        assert_eq!(r.tick(&utc(tick)).len(), 0);
    }
}

#[test]
fn timer_due_exactly_now_fires_in_this_tick() {
    let mut r = Registry::new();
    r.create(&request("t", "every", "00:00:05", "true", "XXXXXXX"), &utc(T)).unwrap();
    assert_eq!(r.tick(&utc(T + 4)).len(), 0);
    assert_eq!(r.tick(&utc(T + 5)).len(), 1);
}

#[test]
fn two_timers_due_on_one_tick_both_fire_in_registry_order() {
    let mut r = Registry::new();
    r.create(&request("b", "every", "00:00:03", "true", "XXXXXXX"), &utc(T)).unwrap();
    r.create(&request("a", "oneshot", "00:00:03", "true", "XXXXXXX"), &utc(T)).unwrap();
    r.create(&request("c", "every", "00:00:04", "true", "XXXXXXX"), &utc(T)).unwrap();
    let fired: Vec<String> = r.tick(&utc(T + 3)).into_iter().map(|t| t.id).collect();
    assert_eq!(fired, vec!["b", "a"]);
    assert_eq!(ids(&r), vec!["b", "c"]);
}

#[test]
fn after_a_tick_fired_timers_are_gone_or_later() {
    let mut r = Registry::new();
    r.create(&request("e", "every", "00:00:07", "true", "XXXXXXX"), &utc(T)).unwrap();
    r.create(&request("o", "oneshot", "00:00:07", "true", "XXXXXXX"), &utc(T)).unwrap();
    r.create(&request("a", "at", "10:00:07", "true", "XXXXXXX"), &utc(T)).unwrap();
    r.create(&request("n", "every", "01:00:00", "true", "XXXXXXX"), &utc(T)).unwrap();
    let tick = T + 1000; // the engine was blocked for a while
    let fired: Vec<String> = r.tick(&utc(tick)).into_iter().map(|t| t.id).collect();
    assert_eq!(fired, vec!["e", "o", "a"]);
    assert!(r.get("o").is_none());
    assert!(r.get("e").unwrap().next_hit > tick);
    assert_eq!((r.get("e").unwrap().next_hit - (T + 7)) % 7, 0);
    assert_eq!(r.get("e").unwrap().next_hit, T + 7 + 142 * 7);
    assert_eq!(r.get("a").unwrap().next_hit, T + 7 + 86_400);
    assert_eq!(r.get("n").unwrap().next_hit, T + 3_600);
    // at most once per tick: the same tick again fires nothing
    assert_eq!(r.tick(&utc(tick)).len(), 0);
}

#[test]
fn a_due_timer_waits_for_an_enabled_day() {
    // Wednesday only; created on Wednesday 23:59:50 with a 20 second interval
    let mut r = Registry::new();
    let created = 1_700_092_790;
    r.create(&request("w", "every", "00:00:20", "true", "__X____"), &utc(created)).unwrap();
    assert_eq!(r.get("w").unwrap().next_hit, created + 20);
    // due on Thursday 00:00:10, which is not enabled: it does not fire and is not moved
    assert_eq!(r.tick(&utc(created + 20)).len(), 0);
    assert_eq!(r.tick(&utc(created + 86_400)).len(), 0);
    assert_eq!(r.get("w").unwrap().next_hit, created + 20);
    // the next Wednesday's first tick fires it, and it catches up
    let next_wednesday = 1_700_611_200;
    let fired = r.tick(&utc(next_wednesday));
    assert_eq!(fired.len(), 1);
    let next = r.get("w").unwrap().next_hit;
    assert!(next > next_wednesday && next <= next_wednesday + 20);
    assert_eq!((next - (created + 20)) % 20, 0);
}

#[test]
fn an_empty_registry_gives_an_empty_list() {
    let r = Registry::new();
    assert_eq!(r.list_active_timers().unwrap().len(), 0);
}

#[test]
fn after_a_oneshot_fired_the_list_is_there_and_does_not_hold_it() {
    let mut r = Registry::new();
    r.create(&request("t2", "oneshot", "00:00:01", "true", "XXXXXXX"), &utc(T)).unwrap();
    r.create(&request("stays", "every", "00:00:10", "true", "XXXXXXX"), &utc(T)).unwrap();
    let before = r.list_active_timers().unwrap();
    assert_eq!(before.len(), 2);
    assert_eq!(before[0].id, "t2");
    assert_eq!(r.tick(&utc(T + 1)).len(), 1);
    let after = r.list_active_timers().unwrap();
    assert_eq!(after.len(), 1);
    assert!(after.iter().all(|l| l.id != "t2"));
    for tick in T + 2..T + 10 {
        assert!(r.tick(&utc(tick)).iter().all(|t| t.id != "t2"));
        assert!(r.list_active_timers().unwrap().iter().all(|l| l.id != "t2"));
    }
}

#[test]
fn a_list_is_there_exactly_where_every_next_firing_has_a_date() {
    let last = 8_210_266_876_799u64;
    for (kind, next_hit, listed) in [
        (TimerType::Every, T, true),
        (TimerType::At, T, true),
        (TimerType::OneShot, 0, true),
        (TimerType::Every, last, true),
        (TimerType::At, last, true),
        (TimerType::Every, last + 1, false),
        (TimerType::OneShot, last + 1, false),
        (TimerType::At, last + 1, false),
        (TimerType::Every, u64::MAX, false),
    ] {
        let mut r = Registry::new();
        let first = Timer::new(
            "first".to_string(),
            TimerType::Every,
            5,
            vec!["true".to_string()],
            [true; 7],
            false,
            &utc(T),
        );
        let mut odd = first.snapshot();
        odd.id = "odd".to_string();
        odd.kind = kind;
        odd.next_hit = next_hit;
        start_timer_refresh(&mut r, vec![first, odd]).unwrap();
        let list = r.list_active_timers();
        assert_eq!(list.is_ok(), listed, "{:?} {}", kind, next_hit);
        if let Err(e) = list {
            assert_eq!(e, ControlError::Internal);
        }
        assert_eq!(r.get("odd").unwrap().next_hit_stamp().is_some(), listed);
    }
}

#[test]
fn every_timer_moves_on_by_the_least_multiple_that_passes_the_tick() {
    for (interval, late) in [(1u64, 0u64), (1, 5), (7, 0), (7, 6), (7, 7), (7, 8), (7, 700), (86_399, 86_398), (86_399, 86_399), (86_399, 1_000_000)] {
        let mut t = Timer::new(
            "t".to_string(),
            TimerType::Every,
            interval,
            vec!["true".to_string()],
            [true, false, false, false, false, false, false],
            false,
            &utc(1_699_833_600),
        );
        let due = t.next_hit;
        let now = due + late;
        t.reschedule(&utc(now));
        let moved = t.next_hit - due;
        assert!(moved >= interval);
        assert_eq!(moved % interval, 0);
        assert!(t.next_hit > now);
        assert!(t.next_hit - interval <= now);
        assert_eq!(moved / interval, late / interval + 1);
    }
}
