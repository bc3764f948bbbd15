use vstd::prelude::*;

use crate::number::{decimal, i64_text, parse_u32, u32_of};
use crate::text::{concat3, lines, lines_of, trim, trimmed, views};

verus! {

/// What can be done about the daemon.
pub enum DaemonCommands {
    /// Say whether it runs.
    Status,
    /// Stop it.
    Stop,
    /// Show its log.
    Logs {
        /// Whether to go on with what is written from now on.
        follow: bool,
        /// How many lines are shown.
        lines: usize,
    },
}

/// What is known of the daemon.
pub struct DaemonSeen {
    /// Whether it answers.
    pub alive: bool,
    /// What the file with its number holds, where there is one that can be read.
    pub pid_file: Option<String>,
    /// What its log holds, where there is one.
    pub log: Option<String>,
}

/// What is to be done.
pub enum DaemonStep {
    /// Say this, line by line.
    Say(Vec<String>),
    /// Stop the process with this number.
    Stop(u32),
    /// Show so many lines of the log, and go on with what is written from now on.
    Follow(usize),
}

/// Why nothing can be done.
#[derive(Debug)]
pub enum DaemonError {
    /// The file with the number holds none.
    BadPid,
    /// The process could not be told to stop, for a reason with this number.
    NoSignal(i64),
}

impl DaemonError {
    /// What is reported of it.
    pub open spec fn text(&self) -> Seq<char> {
        match self {
            DaemonError::BadPid => "PID 文件格式错误"@,
            DaemonError::NoSignal(n) => "发送 SIGTERM 失败 (errno "@ + decimal(*n as int) + ")"@,
        }
    }

    /// What is reported of it.
    pub fn message(&self) -> (r: String)
        ensures
            r@ == self.text(),
    {
        match self {
            DaemonError::BadPid => "PID 文件格式错误".to_owned(),
            DaemonError::NoSignal(n) => concat3(
                "发送 SIGTERM 失败 (errno ",
                i64_text(*n).as_str(),
                ")",
            ),
        }
    }
}

/// What is said of a daemon.
pub open spec fn status_text(alive: bool, pid_file: Option<Seq<char>>) -> Seq<char> {
    if alive {
        "wx-daemon 运行中 (PID "@ + match pid_file {
            Some(s) => trimmed(s),
            None => "?"@,
        } + ")"@
    } else {
        "wx-daemon 未运行"@
    }
}

/// What is said of a daemon.
pub fn status_line(alive: bool, pid_file: &Option<String>) -> (r: String)
    ensures
        r@ == status_text(
            alive,
            match pid_file {
                Some(s) => Some(s@),
                None => None,
            },
        ),
{
    if alive {
        let pid = match pid_file {
            Some(s) => trim(s.as_str()),
            None => "?".to_owned(),
        };
        concat3("wx-daemon 运行中 (PID ", pid.as_str(), ")")
    } else {
        "wx-daemon 未运行".to_owned()
    }
}

/// The last `n` elements, or all where there are fewer.
pub open spec fn last_of<T>(s: Seq<T>, n: int) -> Seq<T> {
    if s.len() <= n {
        s
    } else {
        s.skip(s.len() - n)
    }
}

/// The last lines of a log.
pub fn log_tail(log: &str, n: usize) -> (r: Vec<String>)
    ensures
        views(r@) == last_of(lines_of(log@), n as int),
{
    let mut all = lines(log);
    if all.len() <= n {
        return all;
    }
    let ghost before = all@;
    let from: usize = all.len() - n;
    let r = all.split_off(from);
    assert(views(r@) =~= views(before).skip(from as int));
    r
}

/// Whether `step` is to be done on a command, given what is known of the daemon.
pub open spec fn answers(
    r: Result<DaemonStep, DaemonError>,
    cmd: DaemonCommands,
    seen: DaemonSeen,
) -> bool {
    match cmd {
        DaemonCommands::Status => match r {
            Ok(DaemonStep::Say(l)) => views(l@) == seq![
                status_text(
                    seen.alive,
                    match seen.pid_file {
                        Some(s) => Some(s@),
                        None => None,
                    },
                ),
            ],
            _ => false,
        },
        DaemonCommands::Stop => match seen.pid_file {
            None => match r {
                Ok(DaemonStep::Say(l)) => views(l@) == seq!["daemon 未运行"@],
                _ => false,
            },
            Some(s) => match u32_of(trimmed(s@)) {
                Some(pid) => r == Ok::<DaemonStep, DaemonError>(DaemonStep::Stop(pid)),
                None => r == Err::<DaemonStep, DaemonError>(DaemonError::BadPid),
            },
        },
        DaemonCommands::Logs { follow, lines } => match seen.log {
            None => match r {
                Ok(DaemonStep::Say(l)) => views(l@) == seq!["暂无日志"@],
                _ => false,
            },
            Some(log) => if follow {
                r == Ok::<DaemonStep, DaemonError>(DaemonStep::Follow(lines))
            } else {
                match r {
                    Ok(DaemonStep::Say(l)) => views(l@) == last_of(lines_of(log@), lines as int),
                    _ => false,
                }
            },
        },
    }
}

fn one_line(s: String) -> (r: Vec<String>)
    ensures
        views(r@) == seq![s@],
{
    let mut out: Vec<String> = Vec::new();
    out.push(s);
    assert(views(out@) =~= seq![s@]);
    out
}

/// What is to be done on a command, given what is known of the daemon.
pub fn cmd_daemon(cmd: &DaemonCommands, seen: &DaemonSeen) -> (r: Result<DaemonStep, DaemonError>)
    ensures
        answers(r, *cmd, *seen),
{
    match cmd {
        DaemonCommands::Status => Ok(
            DaemonStep::Say(one_line(status_line(seen.alive, &seen.pid_file))),
        ),
        DaemonCommands::Stop => match &seen.pid_file {
            None => Ok(DaemonStep::Say(one_line("daemon 未运行".to_owned()))),
            Some(s) => match parse_u32(trim(s.as_str()).as_str()) {
                Some(pid) => Ok(DaemonStep::Stop(pid)),
                None => Err(DaemonError::BadPid),
            },
        },
        DaemonCommands::Logs { follow, lines } => match &seen.log {
            None => Ok(DaemonStep::Say(one_line("暂无日志".to_owned()))),
            Some(log) => if *follow {
                Ok(DaemonStep::Follow(*lines))
            } else {
                Ok(DaemonStep::Say(log_tail(log.as_str(), *lines)))
            },
        },
    }
}

/// What came of telling a process to stop.
pub enum StopOutcome {
    /// It was told.
    Told,
    /// There is no such process.
    Gone,
    /// It could not be told, for a reason with this number.
    Failed(i64),
}

/// What is said of a daemon that was to be stopped. The files that it leaves are taken away where
/// this is no error.
pub fn stop_line(pid: u32, outcome: &StopOutcome) -> (r: Result<String, DaemonError>)
    ensures
        match *outcome {
            StopOutcome::Told => r is Ok && r->Ok_0@ == "已停止 wx-daemon (PID "@ + decimal(
                pid as int,
            ) + ")"@,
            StopOutcome::Gone => r is Ok && r->Ok_0@ == "wx-daemon (PID "@ + decimal(pid as int)
                + ") 已不在运行，清理残留文件"@,
            StopOutcome::Failed(n) => r == Err::<String, DaemonError>(DaemonError::NoSignal(n)),
        },
{
    let number = i64_text(pid as i64);
    match outcome {
        StopOutcome::Told => Ok(concat3("已停止 wx-daemon (PID ", number.as_str(), ")")),
        StopOutcome::Gone => Ok(
            concat3("wx-daemon (PID ", number.as_str(), ") 已不在运行，清理残留文件"),
        ),
        StopOutcome::Failed(n) => Err(DaemonError::NoSignal(*n)),
    }
}

/// How many seconds a daemon may take to begin.
pub const STARTUP_TIMEOUT_SECS: u64 = 15;

/// What comes next while a daemon begins.
#[derive(Clone, Copy, PartialEq, Eq, Structural, Debug)]
pub enum StartupStep {
    /// It is there.
    Ready,
    /// Look again.
    Wait,
    /// It took too long.
    GiveUp,
}

/// What comes next while a daemon begins, so many milliseconds after it was started.
pub fn startup_step(elapsed_millis: u64, alive: bool) -> (r: StartupStep)
    ensures
        r == (if alive {
            StartupStep::Ready
        } else if elapsed_millis < STARTUP_TIMEOUT_SECS * 1000 {
            StartupStep::Wait
        } else {
            StartupStep::GiveUp
        }),
{
    if alive {
        StartupStep::Ready
    } else if elapsed_millis < STARTUP_TIMEOUT_SECS * 1000 {
        StartupStep::Wait
    } else {
        StartupStep::GiveUp
    }
}

/// What is reported of a daemon that took too long.
pub fn startup_failure(log_path: &str) -> (r: String)
    ensures
        r@ == "wx-daemon 启动超时（>"@ + decimal(STARTUP_TIMEOUT_SECS as int)
            + "s）\n请查看日志: "@ + log_path@,
{
    let secs = i64_text(STARTUP_TIMEOUT_SECS as i64);
    let mut r = concat3("wx-daemon 启动超时（>", secs.as_str(), "s）\n请查看日志: ");
    r.append(log_path);
    r
}

} // verus!
