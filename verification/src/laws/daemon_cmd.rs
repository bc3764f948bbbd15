use vstd::prelude::*;

use crate::daemon_cmd::{
    answers, last_of, status_text, DaemonCommands, DaemonError, DaemonSeen, DaemonStep,
    STARTUP_TIMEOUT_SECS,
};
use crate::number::{decimal, u32_of};
use crate::text::{lines_of, trimmed, views};

verus! {

/// What is said of a daemon that runs, with its number where that is known, and of one that does
/// not.
pub proof fn law_status(pid: Seq<char>, pid_file: Option<Seq<char>>)
    ensures
        status_text(true, Some(pid)) == "wx-daemon 运行中 (PID "@ + trimmed(pid) + ")"@,
        status_text(true, None) == "wx-daemon 运行中 (PID "@ + "?"@ + ")"@,
        status_text(false, pid_file) == "wx-daemon 未运行"@,
{
}

/// The last elements of a row are as many as are asked for, or all, up to the end of the row.
pub proof fn law_last_of<T>(s: Seq<T>, n: int)
    requires
        0 <= n,
    ensures
        last_of(s, n).len() == (if s.len() < n {
            s.len() as int
        } else {
            n
        }),
        last_of(s, n).is_suffix_of(s),
{
    assert(last_of(s, n) =~= s.subrange(s.len() - last_of(s, n).len(), s.len() as int));
}

/// Whether the daemon runs is said in one line.
pub proof fn law_status_said(r: Result<DaemonStep, DaemonError>, seen: DaemonSeen)
    requires
        answers(r, DaemonCommands::Status, seen),
    ensures
        r matches Ok(DaemonStep::Say(l)) && l@.len() == 1 && l@[0]@ == status_text(
            seen.alive,
            match seen.pid_file {
                Some(s) => Some(s@),
                None => None,
            },
        ),
{
    if let Ok(DaemonStep::Say(l)) = r {
        assert(views(l@).len() == 1);
        assert(views(l@)[0] == l@[0]@);
    }
}

/// The process that is stopped is the one whose number the file holds; a file without a number is
/// an error, and without a file nothing runs.
pub proof fn law_stop(r: Result<DaemonStep, DaemonError>, seen: DaemonSeen)
    requires
        answers(r, DaemonCommands::Stop, seen),
    ensures
        seen.pid_file is None ==> (r matches Ok(DaemonStep::Say(l)) && l@.len() == 1 && l@[0]@
            == "daemon 未运行"@),
        seen.pid_file matches Some(s) ==> {
            &&& u32_of(trimmed(s@)) matches Some(pid) ==> (r matches Ok(DaemonStep::Stop(p)) && p
                == pid)
            &&& u32_of(trimmed(s@)) is None ==> r matches Err(DaemonError::BadPid)
        },
{
    if let Ok(DaemonStep::Say(l)) = r {
        assert(views(l@).len() == l@.len());
        if l@.len() > 0 {
            assert(views(l@)[0] == l@[0]@);
        }
    }
}

/// Of a log the last lines are shown, or it is followed from there on.
pub proof fn law_logs(
    r: Result<DaemonStep, DaemonError>,
    follow: bool,
    lines: usize,
    seen: DaemonSeen,
)
    requires
        answers(r, DaemonCommands::Logs { follow, lines }, seen),
    ensures
        seen.log is None ==> (r matches Ok(DaemonStep::Say(l)) && l@.len() == 1 && l@[0]@
            == "暂无日志"@),
        seen.log is Some && follow ==> (r matches Ok(DaemonStep::Follow(n)) && n == lines),
        seen.log is Some && !follow ==> (r matches Ok(DaemonStep::Say(l)) && views(l@).is_suffix_of(
            lines_of(seen.log->0@),
        ) && l@.len() == (if lines_of(seen.log->0@).len() < lines {
            lines_of(seen.log->0@).len() as int
        } else {
            lines as int
        })),
{
    if let Ok(DaemonStep::Say(l)) = r {
        assert(views(l@).len() == l@.len());
        if l@.len() > 0 {
            assert(views(l@)[0] == l@[0]@);
        }
        if seen.log is Some {
            law_last_of(lines_of(seen.log->0@), lines as int);
        }
    }
}

/// What is reported of a daemon that cannot be stopped.
pub proof fn law_daemon_errors(n: i64)
    ensures
        DaemonError::BadPid.text() == "PID 文件格式错误"@,
        DaemonError::NoSignal(n).text() == "发送 SIGTERM 失败 (errno "@ + decimal(n as int) + ")"@,
{
}

/// A daemon may take fifteen seconds to begin.
pub proof fn law_startup_time()
    ensures
        STARTUP_TIMEOUT_SECS == 15,
{
}

} // verus!
