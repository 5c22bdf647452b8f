use vstd::prelude::*;

use super::conf::{holds, locate, named, snapshot, TaskmasterView};
use super::loop_exec::{under_limit, Autorestart, Event, ReportView};
use super::parse::FileView;
use super::proc::ProcView;
use super::task::TaskView;
use super::tool::{first_index, lemma_first_index};
use super::yaml::Node;
use crate::{ProgView, State};

verus! {

/// What one tick of the reconciliation loop is given for one slot.
pub ghost struct Tick {
    pub event: Option<Event>,
    pub now: u64,
    pub stamp: Seq<char>,
}

/// The slot `p` after the ticks of `trace`, the first of them first.
pub open spec fn run(p: ProcView, file: FileView, trace: Seq<Tick>) -> ProcView
    decreases trace.len(),
{
    if trace.len() == 0 {
        p
    } else {
        run(p, file, trace.drop_last()).tick(
            file,
            trace.last().event,
            trace.last().now,
            trace.last().stamp,
        )
    }
}

/// A tick keeps the invariant of a slot: afterwards the slot still owns a
/// child exactly if it is starting, running or stopping.
pub proof fn lemma_tick_keeps_invariant(
    p: ProcView,
    file: FileView,
    event: Option<Event>,
    now: u64,
    stamp: Seq<char>,
)
    requires
        p.wf(),
    ensures
        p.tick(file, event, now, stamp).wf(),
        p.tick(file, event, now, stamp).child is Some ==> p.tick(file, event, now, stamp).state.live(),
{
}

/// Any number of ticks keeps the invariant of a slot.
pub proof fn lemma_run_keeps_invariant(p: ProcView, file: FileView, trace: Seq<Tick>)
    requires
        p.wf(),
    ensures
        run(p, file, trace).wf(),
    decreases trace.len(),
{
    if trace.len() > 0 {
        lemma_run_keeps_invariant(p, file, trace.drop_last());
    }
}

/// Start, stop and restart requests keep the invariant of a slot.
pub proof fn lemma_requests_keep_invariant(p: ProcView, spawned: Option<u32>, now: u64)
    requires
        p.wf(),
    ensures
        p.start(spawned, now).wf(),
        p.stop(now).wf(),
        p.restart(spawned, now).wf(),
{
}

/// A starting slot whose program asks for no time up is running after the
/// first tick that finds its child alive.
pub proof fn lemma_no_uptime_runs_at_once(p: ProcView, file: FileView, now: u64, stamp: Seq<char>)
    requires
        p.wf(),
        p.state == State::STARTING,
        file.min_uptime() == 0,
    ensures
        p.tick(file, Some(Event::Alive), now, stamp).state == State::RUNNING,
        p.tick(file, Some(Event::Alive), now, stamp).child == p.child,
{
}

/// Under the policy `Never` a slot that has exited has given up after one
/// tick, whatever the tick is given, and stays so under any further ticks: it
/// never starts again on its own.
pub proof fn lemma_never_gives_up(p: ProcView, file: FileView, trace: Seq<Tick>)
    requires
        file.policy() == Autorestart::Never,
        p.state == State::EXITED,
        trace.len() >= 1,
    ensures
        run(p, file, trace).state == State::FATAL,
        run(p, file, trace).child == p.child,
        run(p, file, trace).nbr_restart == p.nbr_restart,
    decreases trace.len(),
{
    if trace.len() > 1 {
        lemma_never_gives_up(p, file, trace.drop_last());
    } else {
        assert(run(p, file, trace.drop_last()) == p);
    }
}

/// Under the policy `OnError` a slot that has exited with an accepted code
/// gives up; with another code it backs off for a new spawn while its spawn
/// counter is under the limit, and gives up once the limit is reached.
pub proof fn lemma_on_error(
    p: ProcView,
    file: FileView,
    event: Option<Event>,
    now: u64,
    stamp: Seq<char>,
)
    requires
        file.policy() == Autorestart::OnError,
        p.state == State::EXITED,
    ensures
        p.exit_error matches Some(code) && file.accepted_codes().contains(code) ==> p.tick(
            file,
            event,
            now,
            stamp,
        ).state == State::FATAL,
        p.exit_error matches Some(code) && !file.accepted_codes().contains(code) && p.nbr_restart
            < file.max_attempts() ==> p.tick(file, event, now, stamp).state == State::BACKOFF,
        p.nbr_restart >= file.max_attempts() ==> p.tick(file, event, now, stamp).state
            == State::FATAL,
{
}

/// Under the policy `Always` a slot that has exited backs off for a new
/// spawn exactly while its spawn counter is under the limit.
pub proof fn lemma_always(
    p: ProcView,
    file: FileView,
    event: Option<Event>,
    now: u64,
    stamp: Seq<char>,
)
    requires
        file.policy() == Autorestart::Always,
        p.state == State::EXITED,
    ensures
        p.tick(file, event, now, stamp).state == (if p.nbr_restart < file.max_attempts() {
            State::BACKOFF
        } else {
            State::FATAL
        }),
{
}

/// The larger of two counters.
pub open spec fn larger(a: i64, b: i64) -> i64 {
    if a >= b {
        a
    } else {
        b
    }
}

/// A slot is backing off only while its spawn counter is under the limit.
pub open spec fn backoff_under_limit(p: ProcView, file: FileView) -> bool {
    p.state == State::BACKOFF ==> under_limit(file, p.nbr_restart)
}

/// The reconciliation loop spawns a slot only while its spawn counter is
/// under the limit, and each spawn counts once: however many ticks pass, the
/// counter never gets beyond the limit (nor beyond where it stood).
pub proof fn lemma_spawns_bounded(p: ProcView, file: FileView, trace: Seq<Tick>)
    requires
        backoff_under_limit(p, file),
    ensures
        backoff_under_limit(run(p, file, trace), file),
        p.nbr_restart <= run(p, file, trace).nbr_restart <= larger(
            p.nbr_restart,
            file.max_attempts(),
        ),
    decreases trace.len(),
{
    if trace.len() > 0 {
        lemma_spawns_bounded(p, file, trace.drop_last());
    }
}

/// A tick spawns at most once, and only a slot that is backing off.
pub proof fn lemma_tick_counts_spawns(
    p: ProcView,
    file: FileView,
    event: Option<Event>,
    now: u64,
    stamp: Seq<char>,
)
    ensures
        p.tick(file, event, now, stamp).nbr_restart == (if p.state == State::BACKOFF
            && event is Some && event->0 is Spawned {
            p.bumped()
        } else {
            p.nbr_restart
        }),
{
}

/// A reload with the text that is loaded already changes nothing and says
/// so, whatever the text parses to and whatever is reported; so does a
/// second such reload after it.
pub proof fn lemma_reload_without_change(
    tm: TaskmasterView,
    doc: Option<Node>,
    reports: Seq<ReportView>,
    now: u64,
    time: Seq<char>,
    doc2: Option<Node>,
    reports2: Seq<ReportView>,
    now2: u64,
    time2: Seq<char>,
)
    ensures
        tm.reloaded(tm.raw, doc, reports, now, time) == tm,
        tm.reload_result(tm.raw, doc) == Ok::<Seq<char>, Seq<char>>(
            "Reload file with success: 0 change"@,
        ),
        tm.reload_needs(tm.raw, doc, now, time) == Seq::<super::loop_exec::WatchView>::empty(),
        tm.reloaded(tm.raw, doc, reports, now, time).reloaded(tm.raw, doc2, reports2, now2, time2)
            == tm,
        tm.reloaded(tm.raw, doc, reports, now, time).reload_result(tm.raw, doc2) == Ok::<
            Seq<char>,
            Seq<char>,
        >("Reload file with success: 0 change"@),
{
}

/// Once a text was taken up by a reload, it is the text that is loaded: a
/// second reload with the same text changes nothing.
pub proof fn lemma_reload_settles(
    tm: TaskmasterView,
    raw: Seq<char>,
    doc: Option<Node>,
    reports: Seq<ReportView>,
    now: u64,
    time: Seq<char>,
    doc2: Option<Node>,
    reports2: Seq<ReportView>,
    now2: u64,
    time2: Seq<char>,
)
    requires
        doc is Some,
    ensures
        tm.reloaded(raw, doc, reports, now, time).raw == raw,
        tm.reloaded(raw, doc, reports, now, time).reloaded(raw, doc2, reports2, now2, time2)
            == tm.reloaded(raw, doc, reports, now, time),
{
}

/// When a new configuration is taken up, a program that it names again
/// has as many slots as the new configuration gives it, if it can still be
/// launched or is not asked to have more.
pub proof fn lemma_taken_up_size(t: TaskView, new: TaskView)
    requires
        new.file.launchable() || new.procs.len() <= t.procs.len(),
        new.procs.len() <= i64::MAX,
    ensures
        t.narrowed(new).widened(new).procs.len() == new.procs.len(),
        t.narrowed(new).widened(new).file == new.file,
        t.narrowed(new).widened(new).is_active,
{
}

/// When a new configuration is taken up, a slot that owns a child and
/// whose program is named again, with enough slots and with `autostart`,
/// is left as it is; only its stop signal is the new one, and it gets the
/// log files that it lacked.
pub proof fn lemma_taken_up_leaves_children(
    t: TaskView,
    new: TaskView,
    reports: Seq<ReportView>,
    now: u64,
    time: Seq<char>,
    j: int,
)
    requires
        0 <= j < t.procs.len(),
        j < new.procs.len(),
        t.procs[j].state.live(),
        new.file.autostart_or_default(),
    ensures
        j < t.narrowed(new).widened(new).with_files(time).autostarted(reports, now).procs.len(),
        t.narrowed(new).widened(new).with_files(time).autostarted(reports, now).procs[j]
            == (ProcView {
            stopsignal: new.file.stopsignal,
            s_file: t.procs[j].s_file.with_files(time),
            ..t.procs[j]
        }),
{
}

/// When a new configuration is taken up, the slots that a program gets
/// for it are new ones: stopped, never spawned, numbered on from the last.
pub proof fn lemma_taken_up_adds_new_slots(t: TaskView, new: TaskView, j: int)
    requires
        new.file.launchable(),
        t.procs.len() <= j < new.procs.len() <= i64::MAX,
    ensures
        t.narrowed(new).widened(new).procs[j] == (TaskView {
            file: new.file,
            log_conf: new.log_conf,
            ..t
        }).replica(new.label(), j, j == 0),
        t.narrowed(new).widened(new).procs[j].state == State::STOPPED,
        t.narrowed(new).widened(new).procs[j].child is None,
        t.narrowed(new).widened(new).procs[j].nbr_restart == 0,
{
}

/// A reload that takes up a new configuration retires every program that
/// the new configuration does not name: it is marked, and its slots are
/// asked to stop.
pub proof fn lemma_omitted_program_is_retired(
    tm: TaskmasterView,
    raw: Seq<char>,
    doc: Node,
    now: u64,
    i: int,
)
    requires
        raw != tm.raw,
        0 <= i < tm.tasks.len(),
        first_index(tm.described(raw, doc).tasks, super::conf::called(tm.tasks[i].file.name))
            is None,
    ensures
        i < tm.merged(raw, Some(doc), now).tasks.len(),
        tm.merged(raw, Some(doc), now).tasks[i] == tm.tasks[i].retired(now),
        !tm.merged(raw, Some(doc), now).tasks[i].is_active,
{
}

/// After a tick no program is left that is retired and owns no child:
/// its slots appear in no status report any more.
pub proof fn lemma_sweep_drops_finished(
    tm: TaskmasterView,
    reports: Seq<ReportView>,
    now: u64,
    stamp: Seq<char>,
    i: int,
)
    requires
        0 <= i < tm.swept(reports, now, stamp).tasks.len(),
    ensures
        !tm.swept(reports, now, stamp).tasks[i].finished(),
{
    let ticked = super::conf::all_ticked(tm.tasks, reports, now, stamp);
    let keep = |t: TaskView| !t.finished();
    ticked.lemma_filter_pred(keep, i);
}

/// The count of the slots that were made never falls: not when the
/// programs are set up, not on a request, a tick or a reload.
pub proof fn lemma_count_never_falls(
    tm: TaskmasterView,
    name: Seq<char>,
    raw: Seq<char>,
    doc: Option<Node>,
    reports: Seq<ReportView>,
    now: u64,
    stamp: Seq<char>,
)
    ensures
        tm.commanded().nprocs >= tm.nprocs,
        tm.started(name, reports, now).nprocs == tm.nprocs,
        tm.stopped(name, now).nprocs == tm.nprocs,
        tm.restarted(name, reports, now).nprocs == tm.nprocs,
        tm.swept(reports, now, stamp).nprocs == tm.nprocs,
        tm.autostarted(reports, now).nprocs == tm.nprocs,
        tm.merged(raw, doc, now).nprocs >= tm.nprocs,
        tm.reloaded(raw, doc, reports, now, stamp).nprocs >= tm.nprocs,
{
}

/// A slot is found under a name exactly if some slot bears it.
pub proof fn lemma_locate(tasks: Seq<TaskView>, name: Seq<char>)
    ensures
        locate(tasks, name) is None <==> forall|i: int, j: int|
            0 <= i < tasks.len() && 0 <= j < tasks[i].procs.len() ==> (
            #[trigger] tasks[i].procs[j]).name != Some(name),
        locate(tasks, name) matches Some(at) ==> 0 <= at.0 < tasks.len() && 0 <= at.1
            < tasks[at.0].procs.len() && tasks[at.0].procs[at.1].name == Some(name),
{
    lemma_first_index(tasks, holds(name));
    match first_index(tasks, holds(name)) {
        Some(i) => {
            lemma_first_index(tasks[i].procs, named(name));
        },
        None => {
            assert forall|i: int, j: int|
                0 <= i < tasks.len() && 0 <= j < tasks[i].procs.len() implies (
            #[trigger] tasks[i].procs[j]).name != Some(name) by {
                lemma_first_index(tasks[i].procs, named(name));
            }
        },
    }
}

/// A request for a name that no slot bears fails with "Process not
/// found" and changes nothing in the registry: no slot, no counter, no order.
pub proof fn lemma_unknown_name_changes_nothing(
    tm: TaskmasterView,
    name: Seq<char>,
    reports: Seq<ReportView>,
    now: u64,
)
    requires
        forall|i: int, j: int|
            0 <= i < tm.tasks.len() && 0 <= j < tm.tasks[i].procs.len() ==> (
            #[trigger] tm.tasks[i].procs[j]).name != Some(name),
    ensures
        tm.stopped(name, now) == tm,
        tm.started(name, reports, now) == tm,
        tm.restarted(name, reports, now) == tm,
        tm.stop_result(name) == Err::<Seq<char>, Seq<char>>("Process not found"@),
        tm.start_result(name, reports) == Err::<Seq<char>, Seq<char>>("Process not found"@),
        tm.restart_result(name, reports, now) == Err::<Seq<char>, Seq<char>>(
            "Process not found"@,
        ),
        tm.start_needs(name) == Seq::<super::loop_exec::WatchView>::empty(),
{
    lemma_locate(tm.tasks, name);
}

/// The status report of a registry without programs is empty.
pub proof fn lemma_empty_status(tasks: Seq<TaskView>, now: u64)
    requires
        tasks.len() == 0,
    ensures
        snapshot(tasks, now) == Seq::<ProgView>::empty(),
{
}

/// A tick of the reconciliation loop keeps the invariant of the registry:
/// afterwards every slot still owns a child exactly if it is starting,
/// running or stopping.
pub proof fn lemma_sweep_keeps_invariant(
    tm: TaskmasterView,
    reports: Seq<ReportView>,
    now: u64,
    stamp: Seq<char>,
)
    requires
        tm.wf(),
    ensures
        tm.swept(reports, now, stamp).wf(),
{
    let ticked = super::conf::all_ticked(tm.tasks, reports, now, stamp);
    let keep = |t: TaskView| !t.finished();
    assert forall|i: int| 0 <= i < ticked.len() implies (#[trigger] ticked[i]).wf() by {
        let t = tm.tasks[i];
        let stepped = super::loop_exec::ticked(t.procs, t.file, reports, now, stamp);
        let kept = |p: ProcView| !p.placeholder();
        assert forall|j: int| 0 <= j < ticked[i].procs.len() implies (
        #[trigger] ticked[i].procs[j]).wf() by {
            stepped.lemma_filter_contains_rev(kept, ticked[i].procs[j]);
        }
    }
    let swept = tm.swept(reports, now, stamp).tasks;
    assert forall|i: int| 0 <= i < swept.len() implies (#[trigger] swept[i]).wf() by {
        ticked.lemma_filter_contains_rev(keep, swept[i]);
    }
}

} // verus!
