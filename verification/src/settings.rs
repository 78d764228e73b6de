//! What the service configuration asks for: the verbose log, the status
//! client, the control-plane server and the directories.

use crate::config::Config;
use crate::text::{copy_text, same_text};
use vstd::prelude::*;

verus! {

/// Seconds that the status client waits after a failure before it connects again.
pub const RECONNECT_SECONDS: u64 = 30;

/// Whether a key of the configuration has the value `yes`.
pub open spec fn says_yes(config: Map<Seq<char>, Seq<char>>, key: Seq<char>) -> bool {
    config.contains_key(key) && config[key] == "yes"@
}

/// Whether a key of the configuration has the value `yes`.
pub fn is_yes(config: &Config, key: &str) -> (r: bool)
    ensures
        r == says_yes(config@, key@),
{
    match config.get(key) {
        Some(value) => same_text(value.as_str(), "yes"),
        None => false,
    }
}

/// Whether the verbose log is on at startup: `defaults.verbose` is `yes`.
pub fn verbose_at_start(config: &Config) -> (r: bool)
    ensures
        r == says_yes(config@, "defaults.verbose"@),
{
    is_yes(config, "defaults.verbose")
}

/// Where the status client connects to, and the table it writes to.
#[derive(Debug)]
pub struct StatusTarget {
    pub address: String,
    pub table: String,
}

/// Whether the configuration asks for the status client: `hermes.enable` is
/// `yes`, and both `hermes.grpc.address` and `hermes.table` are there.
pub open spec fn status_enabled(config: Map<Seq<char>, Seq<char>>) -> bool {
    &&& says_yes(config, "hermes.enable"@)
    &&& config.contains_key("hermes.grpc.address"@)
    &&& config.contains_key("hermes.table"@)
}

/// The target of the status client, where the configuration asks for one.
pub fn status_target(config: &Config) -> (r: Option<StatusTarget>)
    ensures
        match r {
            Some(target) => status_enabled(config@) && target.address@
                == config@["hermes.grpc.address"@] && target.table@ == config@["hermes.table"@],
            None => !status_enabled(config@),
        },
{
    if !is_yes(config, "hermes.enable") {
        return None;
    }
    let address = match config.get("hermes.grpc.address") {
        Some(address) => address.clone(),
        None => return None,
    };
    let table = match config.get("hermes.table") {
        Some(table) => table.clone(),
        None => return None,
    };
    Some(StatusTarget { address, table })
}

/// How the control-plane server is to be started.
#[derive(Debug)]
pub enum ServerPlan {
    /// `host.grpc.address` is not there: no server.
    NoAddress,
    /// `timer.all_dir` is not there: no server.
    NoTimerDir,
    /// TLS is asked for, and `host.grpc.tls.pem` is not there: no server.
    NoCertificate,
    /// TLS is asked for, and `host.grpc.tls.key` is not there: no server.
    NoKey,
    /// Serve without TLS.
    Plain { address: String, timer_dir: String },
    /// Serve with TLS, with the certificate and the key read from the two files.
    Tls { address: String, timer_dir: String, pem: String, key: String },
}

/// What a server plan holds, as mathematical values.
pub ghost enum ServerPlanView {
    NoAddress,
    NoTimerDir,
    NoCertificate,
    NoKey,
    Plain { address: Seq<char>, timer_dir: Seq<char> },
    Tls { address: Seq<char>, timer_dir: Seq<char>, pem: Seq<char>, key: Seq<char> },
}

impl View for ServerPlan {
    type V = ServerPlanView;

    open spec fn view(&self) -> ServerPlanView {
        match self {
            ServerPlan::NoAddress => ServerPlanView::NoAddress,
            ServerPlan::NoTimerDir => ServerPlanView::NoTimerDir,
            ServerPlan::NoCertificate => ServerPlanView::NoCertificate,
            ServerPlan::NoKey => ServerPlanView::NoKey,
            ServerPlan::Plain { address, timer_dir } => ServerPlanView::Plain {
                address: address@,
                timer_dir: timer_dir@,
            },
            ServerPlan::Tls { address, timer_dir, pem, key } => ServerPlanView::Tls {
                address: address@,
                timer_dir: timer_dir@,
                pem: pem@,
                key: key@,
            },
        }
    }
}

/// The server plan that a configuration asks for. TLS is asked for where
/// `host.grpc.tls` is `yes`.
pub open spec fn planned(config: Map<Seq<char>, Seq<char>>) -> ServerPlanView {
    if !config.contains_key("host.grpc.address"@) {
        ServerPlanView::NoAddress
    } else if !config.contains_key("timer.all_dir"@) {
        ServerPlanView::NoTimerDir
    } else if !says_yes(config, "host.grpc.tls"@) {
        ServerPlanView::Plain {
            address: config["host.grpc.address"@],
            timer_dir: config["timer.all_dir"@],
        }
    } else if !config.contains_key("host.grpc.tls.pem"@) {
        ServerPlanView::NoCertificate
    } else if !config.contains_key("host.grpc.tls.key"@) {
        ServerPlanView::NoKey
    } else {
        ServerPlanView::Tls {
            address: config["host.grpc.address"@],
            timer_dir: config["timer.all_dir"@],
            pem: config["host.grpc.tls.pem"@],
            key: config["host.grpc.tls.key"@],
        }
    }
}

/// Reads from the configuration how the control-plane server is to be started.
pub fn start_server(config: &Config) -> (plan: ServerPlan)
    ensures
        plan@ == planned(config@),
{
    let address = match config.get("host.grpc.address") {
        Some(address) => address.clone(),
        None => return ServerPlan::NoAddress,
    };
    let timer_dir = match config.get("timer.all_dir") {
        Some(dir) => dir.clone(),
        None => return ServerPlan::NoTimerDir,
    };
    if !is_yes(config, "host.grpc.tls") {
        return ServerPlan::Plain { address, timer_dir };
    }
    let pem = match config.get("host.grpc.tls.pem") {
        Some(pem) => pem.clone(),
        None => return ServerPlan::NoCertificate,
    };
    let key = match config.get("host.grpc.tls.key") {
        Some(key) => key.clone(),
        None => return ServerPlan::NoKey,
    };
    ServerPlan::Tls { address, timer_dir, pem, key }
}

/// What to do about a directory that the service needs.
#[derive(Debug)]
pub enum DirStep {
    /// The configuration does not name the directory: give up with code 4.
    Unnamed,
    /// The directory is there.
    Ready,
    /// Nothing is at the path, or a file is: create the directory.
    Create,
}

/// Decides what to do about a directory that the service needs, from the
/// path that the configuration gives for it and from what is at that path.
pub fn check_and_create_dir(dir_path: Option<&String>, present: bool, is_file: bool) -> (step:
    DirStep)
    ensures
        step == if dir_path is None {
            DirStep::Unnamed
        } else if !present || is_file {
            DirStep::Create
        } else {
            DirStep::Ready
        },
{
    match dir_path {
        Some(_) => {
            if !present || (present && is_file) {
                DirStep::Create
            } else {
                DirStep::Ready
            }
        },
        None => DirStep::Unnamed,
    }
}

/// The directories that the service keeps under its working directory, in
/// the order in which they are made.
pub open spec fn work_dir(n: int) -> Seq<char> {
    if n == 0 {
        "/all_timers"@
    } else if n == 1 {
        "active_timers"@
    } else {
        "logs"@
    }
}

/// The name under which a failure to make a working directory is reported.
pub open spec fn work_dir_fault(n: int) -> Seq<char> {
    if n == 0 {
        "all_timers"@
    } else {
        "active_timers"@
    }
}

/// What to do next about the working directories.
#[derive(Debug)]
pub enum DirsStep {
    /// Make sure that this directory exists, then ask again.
    Ensure(String),
    /// All is done, or one directory could not be made.
    Finished(Result<(), String>),
}

/// Decides what to do next about the three working directories. `made`
/// says how many of them were seen to so far, `failed` whether the last of
/// these could not be made. A failure ends the work, with the name it is
/// reported under; so does the third success.
pub fn check_and_build_dirs(made: usize, failed: bool) -> (step: DirsStep)
    ensures
        match step {
            DirsStep::Ensure(path) => !(failed && made >= 1) && made < 3 && path@ == work_dir(
                made as int,
            ),
            DirsStep::Finished(Err(name)) => failed && made >= 1 && name@ == work_dir_fault(
                made - 1,
            ),
            DirsStep::Finished(Ok(_)) => !(failed && made >= 1) && made >= 3,
        },
{
    if failed && made >= 1 {
        if made == 1 {
            DirsStep::Finished(Err(copy_text("all_timers")))
        } else {
            DirsStep::Finished(Err(copy_text("active_timers")))
        }
    } else if made == 0 {
        DirsStep::Ensure(copy_text("/all_timers"))
    } else if made == 1 {
        DirsStep::Ensure(copy_text("active_timers"))
    } else if made == 2 {
        DirsStep::Ensure(copy_text("logs"))
    } else {
        DirsStep::Finished(Ok(()))
    }
}

} // verus!
