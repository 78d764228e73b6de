//! Running a timer's command: what is started, where its output goes, and
//! what is made of the output and the exit code.

use crate::command::Command;
use crate::output::{line_views, merge_output, CommandOutput};
use crate::sort::is_stable_sort;
use crate::text::{copy_text, join, texts};
use crate::timer::Timer;
use vstd::prelude::*;
use vstd::string::StringExecFns;

verus! {

/// The exit code that stands for a command whose end could not be waited for.
pub const WAIT_FAILED: i32 = -999;

/// A process to start: a program and its arguments.
#[derive(Debug)]
pub struct Launch {
    pub program: String,
    pub args: Vec<String>,
}

/// The path of the log of a timer: `<log_dir>/<id>.log`.
pub open spec fn log_path_of(log_dir: Seq<char>, id: Seq<char>) -> Seq<char> {
    log_dir + seq!['/'] + id + ".log"@
}

/// The path of the log of a timer.
pub fn log_path(log_dir: &str, id: &str) -> (path: String)
    ensures
        path@ == log_path_of(log_dir@, id@),
{
    let mut path = copy_text(log_dir);
    path.push('/');
    path.append(id);
    path.append(".log");
    path
}

impl Timer {
    /// The process that runs the timer's command: a shell, `/bin/sh`, with
    /// `-c` and the command as one line, so that the shell reads the whole
    /// line. `None` for a timer without a command.
    pub fn execute(&self) -> (r: Option<Launch>)
        ensures
            match r {
                Some(launch) => self@.command.len() > 0 && launch.program@ == "/bin/sh"@ && texts(
                    launch.args@,
                ) == seq!["-c"@, join(self@.command)],
                None => self@.command.len() == 0,
            },
    {
        if self.command.len() == 0 {
            return None;
        }
        let mut args: Vec<String> = Vec::new();
        args.push(copy_text("-c"));
        args.push(self.command_line());
        assert(texts(args@) =~= seq!["-c"@, join(self@.command)]);
        Some(Launch { program: copy_text("/bin/sh"), args })
    }
}

/// What a run of a command gives: the lines of both streams in one list,
/// ordered by their time, and the exit code, `WAIT_FAILED` where there is none.
pub fn finish(stdout: Vec<CommandOutput>, stderr: Vec<CommandOutput>, status: Option<i32>) -> (r: (
    Vec<CommandOutput>,
    i32,
))
    ensures
        is_stable_sort::<CommandOutput>(
            line_views(r.0@),
            line_views(stdout@) + line_views(stderr@),
        ),
        r.1 == match status {
            Some(code) => code,
            None => WAIT_FAILED,
        },
{
    let lines = merge_output(stdout, stderr);
    let code = match status {
        Some(code) => code,
        None => WAIT_FAILED,
    };
    (lines, code)
}

/// What is to be done to run a command under `sudo` for a timer.
#[derive(Debug)]
pub struct SudoRun {
    /// The log that the run is written to: `logs/<id>.log`.
    pub log_file: String,
    pub program: String,
    pub args: Vec<String>,
}

/// Prepares the run of a command for the timer `id`. A command without a
/// program is refused.
pub fn exec_command(command: Command, id: &str) -> (r: Result<SudoRun, String>)
    ensures
        match r {
            Ok(run) => command.bin@.len() > 0 && run.log_file@ == log_path_of("logs"@, id@)
                && run.program@ == command.bin@ && texts(run.args@) == texts(command.args@),
            Err(fault) => command.bin@.len() == 0 && fault@ == "Command is not defined"@,
        },
{
    if command.bin.as_str().unicode_len() == 0 {
        return Err(copy_text("Command is not defined"));
    }
    Ok(SudoRun { log_file: log_path("logs", id), program: command.bin, args: command.args })
}

/// The word under which the end of a command run under `sudo` is reported.
pub fn sudo_outcome(success: bool) -> (word: &'static str)
    ensures
        word@ == if success {
            "OK"@
        } else {
            "failed"@
        },
{
    if success {
        "OK"
    } else {
        "failed"
    }
}

} // verus!
