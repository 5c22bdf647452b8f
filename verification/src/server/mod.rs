use vstd::prelude::*;
use vstd::string::*;

pub mod conf;
pub mod file;
pub mod laws;
pub mod loop_exec;
pub mod names;
pub mod parse;
pub mod proc;
pub mod task;
pub mod tool;
pub mod yaml;

use crate::{CallOn, CallOnView, Response, ResponseView, BUFFER_SIZE};
use conf::{held, snapshot, Taskmaster, TaskmasterView};
use loop_exec::{reports_view, watches_view, Report, ReportView, Watch, WatchView};
use yaml::Node;

verus! {

/// Whether a request of `size` bytes is taken: an empty one is not, nor
/// one that does not fit the buffer.
pub fn accepts(size: usize) -> (r: bool)
    ensures
        r == (0 < size <= BUFFER_SIZE),
{
    size > 0 && size <= BUFFER_SIZE
}

/// The registry after the command `cmd`. A reload takes up the text
/// `raw` of the configuration, of which `doc` is the first document, and
/// names new log files with the time of day `time`; a reload without a
/// text changes nothing.
pub open spec fn handled(
    tm: TaskmasterView,
    cmd: CallOnView,
    raw: Option<Seq<char>>,
    doc: Option<Node>,
    reports: Seq<ReportView>,
    now: u64,
    time: Seq<char>,
) -> TaskmasterView {
    match cmd {
        CallOnView::Start(name) => tm.started(name, reports, now),
        CallOnView::Stop(name) => tm.stopped(name, now),
        CallOnView::Restart(name) => tm.restarted(name, reports, now),
        CallOnView::Status => tm,
        CallOnView::Reload => match raw {
            Some(raw) => tm.reloaded(raw, doc, reports, now, time),
            None => tm,
        },
    }
}

/// How the command `cmd` goes.
pub open spec fn handled_result(
    tm: TaskmasterView,
    cmd: CallOnView,
    raw: Option<Seq<char>>,
    doc: Option<Node>,
    reports: Seq<ReportView>,
    now: u64,
) -> Result<Seq<char>, Seq<char>> {
    match cmd {
        CallOnView::Start(name) => tm.start_result(name, reports),
        CallOnView::Stop(name) => tm.stop_result(name),
        CallOnView::Restart(name) => tm.restart_result(name, reports, now),
        CallOnView::Status => Ok(Seq::empty()),
        CallOnView::Reload => match raw {
            Some(raw) => tm.reload_result(raw, doc),
            None => Err("Reload failed: the configuration cannot be read"@),
        },
    }
}

/// What the command `cmd` has to be told before it is handled: the
/// outcome of a spawn for each slot that it will start.
pub open spec fn needed(
    tm: TaskmasterView,
    cmd: CallOnView,
    raw: Option<Seq<char>>,
    doc: Option<Node>,
    now: u64,
    time: Seq<char>,
) -> Seq<WatchView> {
    match cmd {
        CallOnView::Start(name) => tm.start_needs(name),
        CallOnView::Restart(name) => tm.start_needs(name),
        CallOnView::Reload => match raw {
            Some(raw) => tm.reload_needs(raw, doc, now, time),
            None => Seq::empty(),
        },
        _ => Seq::empty(),
    }
}

/// What `handle_client` has to be told for the command `cmd`.
pub fn client_needs(
    task: &Taskmaster,
    cmd: &CallOn,
    raw: &Option<String>,
    doc: Option<&Node>,
    now: u64,
    time: &str,
) -> (r: Vec<Watch>)
    ensures
        watches_view(r@) == needed(task@, cmd@, raw.deep_view(), held(doc), now, time@),
{
    match cmd {
        CallOn::Start(proc_name) => task.get_start_needs(proc_name),
        CallOn::Restart(proc_name) => task.get_start_needs(proc_name),
        CallOn::Reload => match raw {
            Some(raw) => task.reload_needs_from(raw, doc, now, time),
            None => {
                let watches: Vec<Watch> = Vec::new();
                watches
            },
        },
        _ => {
            let watches: Vec<Watch> = Vec::new();
            watches
        },
    }
}

/// Handles one command of a client and gives the answer to it. For a
/// reload `raw` is the text of the configuration and `doc` its first
/// document, as far as they could be read, and `time` the time of day
/// that goes into the names of new log files; `reports` holds the
/// outcome of the spawns that `client_needs` asked for.
pub fn handle_client(
    task: &mut Taskmaster,
    cmd: CallOn,
    raw: Option<String>,
    doc: Option<&Node>,
    reports: &Vec<Report>,
    now: u64,
    time: &str,
) -> (res: Response)
    ensures
        final(task)@ == handled(
            old(task)@,
            cmd@,
            raw.deep_view(),
            held(doc),
            reports_view(reports@),
            now,
            time@,
        ),
        res@ == (ResponseView {
            cmd: cmd@,
            success: handled_result(
                old(task)@,
                cmd@,
                raw.deep_view(),
                held(doc),
                reports_view(reports@),
                now,
            ),
            content: snapshot(final(task)@.tasks, now),
        }),
        old(task)@.wf() ==> final(task)@.wf(),
        old(task)@.named() ==> final(task)@.named(),
{
    match cmd {
        CallOn::Start(proc_name) => task.start(proc_name, reports, now),
        CallOn::Stop(proc_name) => task.stop(proc_name, now),
        CallOn::Restart(proc_name) => task.restart(proc_name, reports, now),
        CallOn::Status => task.status(now),
        CallOn::Reload => match raw {
            Some(raw) => task.reload_from(raw, doc, reports, now, time),
            None => Response {
                cmd: CallOn::Reload,
                success: Err(String::from_str("Reload failed: the configuration cannot be read")),
                content: task.get_proc_list(now),
            },
        },
    }
}

} // verus!
