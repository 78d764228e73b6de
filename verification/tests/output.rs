use chronos::command::Command;
use chronos::kinds::{CommandOutputType, TimerType};
use chronos::clock::LocalClock;
use chronos::output::{
    merge_output, outcome, read_buffer, status_event, strip_line_feeds, CommandOutput,
};
use chronos::sort::text_in_order;
use chronos::runner::{exec_command, finish, log_path, sudo_outcome, WAIT_FAILED};
use chronos::timer::Timer;

fn line(time: &str, text: &str, kind: CommandOutputType) -> CommandOutput {
    CommandOutput { time: time.to_string(), text: text.to_string(), kind }
}

fn shown(lines: &[CommandOutput]) -> Vec<String> {
    lines.iter().map(|l| l.log_line()).collect()
}

#[test]
fn order_of_texts_is_that_of_strings() {
    let samples = ["", "a", "ab", "b", "2023-11-15 10:00:00", "2023-11-15 10:00:01", "é", "z", "A"];
    for a in samples {
        for b in samples {
            assert_eq!(text_in_order(a, b), a <= b, "{:?} {:?}", a, b);
        }
    }
}

#[test]
fn line_feeds_are_taken_out() {
    assert_eq!(strip_line_feeds("hello\n"), "hello");
    assert_eq!(strip_line_feeds("a\nb\n\nc"), "abc");
    assert_eq!(strip_line_feeds("keep\r"), "keep\r");
    assert_eq!(strip_line_feeds(""), "");
}

#[test]
fn lines_become_records() {
    let read = vec![
        ("2023-11-15 10:00:00".to_string(), "hello\n".to_string()),
        ("2023-11-15 10:00:01".to_string(), "last".to_string()),
    ];
    let records = read_buffer(&read, CommandOutputType::Error);
    assert_eq!(records.len(), 2);
    assert_eq!(records[0].time, "2023-11-15 10:00:00");
    assert_eq!(records[0].text, "hello");
    assert_eq!(records[0].kind, CommandOutputType::Error);
    assert_eq!(records[1].text, "last");
    assert!(read_buffer(&vec![], CommandOutputType::Info).is_empty());
}

#[test]
fn log_line_format() {
    let l = line("2023-11-15 10:00:00", "hello", CommandOutputType::Info);
    assert_eq!(l.log_line(), "2023-11-15 10:00:00 I hello\n");
    let l = line("2023-11-15 10:00:00", "", CommandOutputType::Error);
    assert_eq!(l.log_line(), "2023-11-15 10:00:00 E \n");
}

#[test]
fn merged_output_is_ordered_by_time() {
    let i = CommandOutputType::Info;
    let e = CommandOutputType::Error;
    let out = vec![
        line("2023-11-15 10:00:00", "o1", i),
        line("2023-11-15 10:00:02", "o2", i),
        line("2023-11-15 10:00:02", "o3", i),
        line("2023-11-15 10:00:05", "o4", i),
    ];
    let err = vec![
        line("2023-11-15 10:00:01", "e1", e),
        line("2023-11-15 10:00:02", "e2", e),
        line("2023-11-15 10:00:04", "e3", e),
    ];
    let merged = merge_output(out, err);
    let texts: Vec<&str> = merged.iter().map(|l| l.text.as_str()).collect();
    assert_eq!(texts, vec!["o1", "e1", "o2", "o3", "e2", "e3", "o4"]);
    for pair in merged.windows(2) {
        assert!(pair[0].time <= pair[1].time);
    }
}

#[test]
fn merge_sorts_what_came_out_of_order() {
    let i = CommandOutputType::Info;
    let out = vec![line("3", "c", i), line("1", "a", i), line("2", "b", i), line("1", "a2", i)];
    let merged = merge_output(out, vec![]);
    assert_eq!(shown(&merged), vec!["1 I a\n", "1 I a2\n", "2 I b\n", "3 I c\n"]);
    assert!(merge_output(vec![], vec![]).is_empty());
}

#[test]
fn merge_agrees_with_a_stable_sort() {
    let i = CommandOutputType::Info;
    let e = CommandOutputType::Error;
    let times = ["5", "1", "3", "3", "2", "5", "1", "4", "3"];
    let out: Vec<CommandOutput> =
        times.iter().enumerate().map(|(n, t)| line(t, &format!("o{}", n), i)).collect();
    let err: Vec<CommandOutput> =
        times.iter().rev().enumerate().map(|(n, t)| line(t, &format!("e{}", n), e)).collect();
    let mut expected: Vec<(String, String)> =
        out.iter().chain(err.iter()).map(|l| (l.time.clone(), l.text.clone())).collect();
    expected.sort_by(|a, b| a.0.cmp(&b.0));
    let merged: Vec<(String, String)> =
        merge_output(out, err).into_iter().map(|l| (l.time, l.text)).collect();
    assert_eq!(merged, expected);
}

#[test]
fn outcome_words() {
    assert_eq!(outcome(Some(0)), "OK");
    assert_eq!(outcome(Some(1)), "NOK");
    assert_eq!(outcome(Some(-1)), "NOK");
    assert_eq!(outcome(Some(WAIT_FAILED)), "NOK");
    assert_eq!(outcome(None), "NOK");
    assert_eq!(status_event("t1", Some(0)), ("t1".to_string(), "OK".to_string()));
    assert_eq!(status_event("t1", Some(2)), ("t1".to_string(), "NOK".to_string()));
    assert_eq!(status_event("t1", None), ("t1".to_string(), "NOK".to_string()));
}

#[test]
fn run_of_a_command() {
    let i = CommandOutputType::Info;
    let e = CommandOutputType::Error;
    let (lines, code) = finish(vec![line("2", "out", i)], vec![line("1", "err", e)], Some(3));
    assert_eq!(shown(&lines), vec!["1 E err\n", "2 I out\n"]);
    assert_eq!(code, 3);
    let (lines, code) = finish(vec![], vec![], None);
    assert!(lines.is_empty());
    assert_eq!(code, -999);
}

#[test]
fn command_is_handed_to_a_shell_as_one_line() {
    let clock = LocalClock::new(1_700_042_400, 0).unwrap();
    let t = Timer::new(
        "t".to_string(),
        TimerType::Every,
        1,
        vec!["echo".to_string(), "a|b".to_string(), ">x".to_string()],
        [true; 7],
        false,
        &clock,
    );
    let launch = t.execute().unwrap();
    assert_eq!(launch.program, "/bin/sh");
    assert_eq!(launch.args, vec!["-c", "echo a|b >x"]);
    let mut empty = t.snapshot();
    empty.command.clear();
    assert!(empty.execute().is_none());
}

#[test]
fn log_path_of_a_timer() {
    assert_eq!(log_path("/var/log/chronos", "t1"), "/var/log/chronos/t1.log");
    assert_eq!(log_path("", ""), "/.log");
}

#[test]
fn sudo_command() {
    let c = Command::new(vec!["ls".to_string(), "-l".to_string()], "bob".to_string());
    assert_eq!(c.bin, "/usr/bin/sudo");
    assert_eq!(c.user, "bob");
    assert_eq!(c.args, vec!["-u", "bob", "ls", "-l"]);
    let c = Command::new(vec![], "root".to_string());
    assert_eq!(c.args, vec!["-u", "root"]);
    let run = exec_command(c, "t9").unwrap();
    assert_eq!(run.log_file, "logs/t9.log");
    assert_eq!(run.program, "/usr/bin/sudo");
    assert_eq!(run.args, vec!["-u", "root"]);
    let none = Command { bin: String::new(), args: vec![], user: "x".to_string() };
    assert_eq!(exec_command(none, "t").unwrap_err(), "Command is not defined");
    assert_eq!(sudo_outcome(true), "OK");
    assert_eq!(sudo_outcome(false), "failed");
}
