use vstd::prelude::*;
use vstd::string::*;

use super::parse::{
    File, FileView, DEFAULT_STARTRETRIES, DEFAULT_STARTTIME, DEFAULT_STOPWAITSECS,
};
use super::proc::{Order, Proc, ProcView};
use super::task::Task;

verus! {

/// What is done with a process that has exited.
#[derive(Debug, PartialEq, Eq, Clone, Copy, Structural)]
pub enum Autorestart {
    Never,
    Always,
    OnError,
}

/// Something that takes up the children that were spawned for it.
pub trait LoopRestart {
    fn start_loop(&mut self, reports: &Vec<Report>, now: u64);
}

/// What the caller saw of one process since the last tick.
#[derive(Debug, PartialEq, Eq, Clone, Copy, Structural)]
pub enum Event {
    /// The child is still there.
    Alive,
    /// The child has exited, with this code if it was not killed by a signal.
    Exited(Option<i32>),
    /// The spawn that the slot was waiting for gave a child with this process id.
    Spawned(u32),
    /// The spawn that the slot was waiting for gave no child.
    SpawnFailed,
}

/// What the caller saw of the process named `name`.
#[derive(Debug)]
pub struct Report {
    pub name: String,
    pub event: Event,
}

/// Mathematical model of a [`Report`].
pub ghost struct ReportView {
    pub name: Seq<char>,
    pub event: Event,
}

impl View for Report {
    type V = ReportView;

    open spec fn view(&self) -> ReportView {
        ReportView { name: self.name@, event: self.event }
    }
}

/// The models of a list of reports.
pub open spec fn reports_view(reports: Seq<Report>) -> Seq<ReportView> {
    reports.map_values(|r: Report| r@)
}

/// What was seen of the slot named `name`: the event of the first report
/// that bears the name. Nothing is ever seen of a slot without a name.
pub open spec fn event_for(reports: Seq<ReportView>, name: Option<Seq<char>>) -> Option<Event>
    decreases reports.len(),
{
    if reports.len() == 0 || name is None {
        None
    } else if reports[0].name == name->0 {
        Some(reports[0].event)
    } else {
        event_for(reports.skip(1), name)
    }
}

/// The child that was spawned for the slot named `name`, if the reports hold one.
pub open spec fn spawn_for(reports: Seq<ReportView>, name: Option<Seq<char>>) -> Option<u32> {
    match event_for(reports, name) {
        Some(Event::Spawned(pid)) => Some(pid),
        _ => None,
    }
}

pub fn find_event(reports: &Vec<Report>, name: &Option<String>) -> (r: Option<Event>)
    ensures
        r == event_for(reports_view(reports@), name.deep_view()),
{
    let text = match name {
        Some(text) => text,
        None => {
            return None;
        },
    };
    let ghost all = reports_view(reports@);
    let mut i: usize = 0;
    assert(all.skip(0) =~= all);
    while i < reports.len()
        invariant
            i <= reports.len(),
            all == reports_view(reports@),
            name.deep_view() == Some(text@),
            event_for(all, Some(text@)) == event_for(all.skip(i as int), Some(text@)),
        decreases reports.len() - i,
    {
        if reports[i].name == *text {
            return Some(reports[i].event);
        }
        assert(all.skip(i as int).skip(1) =~= all.skip(i + 1));
        i = i + 1;
    }
    None
}

pub fn find_spawn(reports: &Vec<Report>, name: &Option<String>) -> (r: Option<u32>)
    ensures
        r == spawn_for(reports_view(reports@), name.deep_view()),
{
    match find_event(reports, name) {
        Some(Event::Spawned(pid)) => Some(pid),
        _ => None,
    }
}

/// What it takes to spawn the child of a slot.
#[derive(Debug)]
pub struct Launch {
    pub command: String,
    pub args: Vec<String>,
    pub umask: Option<u32>,
    pub directory: Option<String>,
    /// The file that receives the child's output, where one is chosen.
    pub stdout: Option<String>,
    pub stderr: Option<String>,
}

/// Mathematical model of a [`Launch`].
pub ghost struct LaunchView {
    pub command: Seq<char>,
    pub args: Seq<Seq<char>>,
    pub umask: Option<u32>,
    pub directory: Option<Seq<char>>,
    pub stdout: Option<Seq<char>>,
    pub stderr: Option<Seq<char>>,
}

impl View for Launch {
    type V = LaunchView;

    open spec fn view(&self) -> LaunchView {
        LaunchView {
            command: self.command@,
            args: self.args.deep_view(),
            umask: self.umask,
            directory: self.directory.deep_view(),
            stdout: self.stdout.deep_view(),
            stderr: self.stderr.deep_view(),
        }
    }
}

/// What the registry has to learn of a slot before its next step.
#[derive(Debug)]
pub enum Need {
    /// Whether the child with this process id is still there.
    Poll(u32),
    /// A new child, spawned as the launch says.
    Spawn(Launch),
}

/// Mathematical model of a [`Need`].
pub ghost enum NeedView {
    Poll(u32),
    Spawn(LaunchView),
}

impl View for Need {
    type V = NeedView;

    open spec fn view(&self) -> NeedView {
        match self {
            Need::Poll(pid) => NeedView::Poll(*pid),
            Need::Spawn(launch) => NeedView::Spawn(launch@),
        }
    }
}

/// What the caller is to find out of the slot named `name`, and to report
/// under that name.
#[derive(Debug)]
pub struct Watch {
    pub name: String,
    pub need: Need,
}

/// Mathematical model of a [`Watch`].
pub ghost struct WatchView {
    pub name: Seq<char>,
    pub need: NeedView,
}

impl View for Watch {
    type V = WatchView;

    open spec fn view(&self) -> WatchView {
        WatchView { name: self.name@, need: self.need@ }
    }
}

/// The models of a list of watches.
pub open spec fn watches_view(watches: Seq<Watch>) -> Seq<WatchView> {
    watches.map_values(|w: Watch| w@)
}

/// One more item adds what it maps to, if anything, to the end of a
/// filtered list.
pub proof fn lemma_filter_map_step<A, B>(s: Seq<A>, f: spec_fn(A) -> Option<B>, k: int)
    requires
        0 <= k < s.len(),
    ensures
        s.take(k + 1).filter_map(f) == s.take(k).filter_map(f) + (match f(s[k]) {
            Some(b) => seq![b],
            None => Seq::empty(),
        }),
{
    assert(s.take(k + 1).drop_last() =~= s.take(k));
}

/// The transitions of the reconciliation loop.
#[derive(Debug, PartialEq, Eq, Clone, Copy, Structural)]
pub enum Step {
    /// Nothing changes.
    Stay,
    /// Starting or running, and the child has exited: to `EXITED`.
    Exited(Option<i32>),
    /// Stopping, and the child has exited: to `STOPPED`.
    Stopped(Option<i32>),
    /// Starting, and the child has stayed up long enough: to `RUNNING`.
    Running,
    /// Stopping, and the grace period is over: the child is killed.
    Kill,
    /// Exited, and the restart policy asks for another try: to `BACKOFF`.
    Backoff,
    /// Exited, and the restart policy asks for no other try: to `FATAL`.
    Fatal,
    /// Backing off, and a new child was spawned: to `STARTING`.
    Spawned(u32),
    /// Backing off, and no new child could be spawned: to `FATAL`.
    SpawnFailed,
}

/// Whether a slot that was spawned `spawns` times may be spawned again.
pub open spec fn under_limit(file: FileView, spawns: i64) -> bool {
    spawns < file.max_attempts()
}

/// The exit code that the policy goes by: zero for a child killed by a signal.
pub open spec fn code_or_zero(exit: Option<i32>) -> i32 {
    match exit {
        Some(code) => code,
        None => 0,
    }
}

/// The restart policy: whether a slot that has exited is spawned again.
/// `Never` never is; `Always` is while the spawn counter is under the limit;
/// `OnError` is under the same limit unless the exit code is an accepted one.
pub open spec fn retry(file: FileView, spawns: i64, exit: Option<i32>) -> bool {
    match file.policy() {
        Autorestart::Never => false,
        Autorestart::Always => under_limit(file, spawns),
        Autorestart::OnError => !file.accepted_codes().contains(code_or_zero(exit)) && under_limit(
            file,
            spawns,
        ),
    }
}

/// The models of a list of slots.
pub open spec fn procs_view(procs: Seq<Proc>) -> Seq<ProcView> {
    procs.map_values(|p: Proc| p@)
}

/// Every slot of the list keeps its invariant.
pub open spec fn all_wf(procs: Seq<ProcView>) -> bool {
    forall|i: int| 0 <= i < procs.len() ==> (#[trigger] procs[i]).wf()
}

/// The slots of one program after a tick of the reconciliation loop: each
/// makes the transition that fits what was seen of it.
pub open spec fn ticked(
    procs: Seq<ProcView>,
    file: FileView,
    reports: Seq<ReportView>,
    now: u64,
    stamp: Seq<char>,
) -> Seq<ProcView> {
    procs.map_values(|p: ProcView| p.tick(file, event_for(reports, p.name), now, stamp))
}

/// What the caller has to do after that tick, slot by slot.
pub open spec fn ticked_orders(
    procs: Seq<ProcView>,
    file: FileView,
    reports: Seq<ReportView>,
    now: u64,
) -> Seq<Order> {
    procs.map_values(|p: ProcView| p.tick_orders(file, event_for(reports, p.name), now)).flatten()
}

/// One more item adds its part to the end of a flattened list.
pub proof fn lemma_flatten_step<A, B>(s: Seq<A>, f: spec_fn(A) -> Seq<B>, k: int)
    requires
        0 <= k < s.len(),
    ensures
        s.take(k + 1).map_values(f).flatten() == s.take(k).map_values(f).flatten() + f(s[k]),
{
    assert(s.take(k + 1).map_values(f) =~= s.take(k).map_values(f).push(f(s[k])));
    s.take(k).map_values(f).lemma_flatten_push(f(s[k]));
}

/// One tick of the reconciliation loop on the slots of one program.
pub fn exec_loop(
    vec_process: &mut Vec<Proc>,
    ref_file: &File,
    reports: &Vec<Report>,
    now: u64,
    stamp: &str,
    orders: &mut Vec<Order>,
)
    ensures
        procs_view(final(vec_process)@) == ticked(
            procs_view(old(vec_process)@),
            ref_file@,
            reports_view(reports@),
            now,
            stamp@,
        ),
        final(orders)@ == old(orders)@ + ticked_orders(
            procs_view(old(vec_process)@),
            ref_file@,
            reports_view(reports@),
            now,
        ),
        all_wf(procs_view(old(vec_process)@)) ==> all_wf(procs_view(final(vec_process)@)),
{
    let ghost before = procs_view(vec_process@);
    let ghost seen = reports_view(reports@);
    let ghost part = |p: ProcView| p.tick_orders(ref_file@, event_for(seen, p.name), now);
    let mut i: usize = 0;
    while i < vec_process.len()
        invariant
            i <= vec_process.len(),
            vec_process.len() == before.len(),
            before == procs_view(old(vec_process)@),
            seen == reports_view(reports@),
            part == |p: ProcView| p.tick_orders(ref_file@, event_for(seen, p.name), now),
            forall|j: int|
                0 <= j < i ==> (#[trigger] vec_process@[j])@ == before[j].tick(
                    ref_file@,
                    event_for(seen, before[j].name),
                    now,
                    stamp@,
                ),
            forall|j: int| i <= j < before.len() ==> (#[trigger] vec_process@[j])@ == before[j],
            orders@ == old(orders)@ + before.take(i as int).map_values(part).flatten(),
        decreases vec_process.len() - i,
    {
        let event = find_event(reports, &vec_process[i].name);
        vec_process[i].tick(ref_file, event, now, stamp, orders);
        proof {
            lemma_flatten_step(before, part, i as int);
        }
        i = i + 1;
    }
    proof {
        assert(before.take(before.len() as int) =~= before);
    }
}

/// Whether at least `limit` seconds have passed; a limit below zero has
/// always passed.
pub open spec fn reached(elapsed: nat, limit: i64) -> bool {
    elapsed >= limit
}

fn has_reached(elapsed: u64, limit: i64) -> (r: bool)
    ensures
        r == reached(elapsed as nat, limit),
{
    limit <= 0 || elapsed >= limit as u64
}

pub fn autostart(task: &mut Task) -> (r: bool)
    ensures
        r == old(task)@.file.autostart_or_default(),
        *final(task) == *old(task),
{
    task.autostart()
}

pub fn test_autostart(fileconf: &File, _ref_proc: &Proc) -> (r: bool)
    ensures
        r == fileconf@.autostart_or_default(),
{
    match fileconf.autostart {
        Some(b) => b,
        None => true,
    }
}

pub fn test_autorestart_nb(fileconf: &File, ref_proc: &Proc) -> (r: bool)
    ensures
        r == under_limit(fileconf@, ref_proc.nbr_restart),
{
    let nbr_start_loop = ref_proc.nbr_restart;
    let nbr_restart_expected = match fileconf.startretries {
        Some(n) => n,
        None => DEFAULT_STARTRETRIES,
    };
    nbr_start_loop < nbr_restart_expected
}

/// Whether `code` is one of `codes`.
pub fn contains_code(codes: &Vec<i32>, code: i32) -> (r: bool)
    ensures
        r == codes@.contains(code),
{
    let mut i: usize = 0;
    while i < codes.len()
        invariant
            i <= codes.len(),
            forall|j: int| 0 <= j < i ==> codes@[j] != code,
        decreases codes.len() - i,
    {
        if codes[i] == code {
            return true;
        }
        i = i + 1;
    }
    false
}

pub fn test_autorestart(fileconf: &File, ref_proc: &Proc) -> (r: bool)
    ensures
        r == retry(fileconf@, ref_proc.nbr_restart, ref_proc.exit_error),
{
    match fileconf.autorestart {
        None => false,
        Some(Autorestart::Never) => false,
        Some(Autorestart::Always) => test_autorestart_nb(fileconf, ref_proc),
        Some(Autorestart::OnError) => {
            let code = match ref_proc.exit_error {
                Some(code) => code,
                None => 0,
            };
            let accepted = if fileconf.exitcodes.len() == 0 {
                assert(seq![0i32][0] == 0);
                code == 0
            } else {
                contains_code(&fileconf.exitcodes, code)
            };
            if accepted {
                false
            } else {
                test_autorestart_nb(fileconf, ref_proc)
            }
        },
    }
}

/// Whether the child of a starting slot has stayed up for the time that its
/// program asks for.
pub fn test_time_starting(fileconf: &File, ref_proc: &Proc, now: u64) -> (r: bool)
    ensures
        r == reached(ref_proc@.elapsed(now), fileconf@.min_uptime()),
{
    let startsecs = match fileconf.starttime {
        Some(n) => n,
        None => DEFAULT_STARTTIME,
    };
    has_reached(ref_proc.elapsed(now), startsecs)
}

/// Whether the child of a stopping slot has had the time that its program
/// grants it.
pub fn test_time_stopping(fileconf: &File, ref_proc: &Proc, now: u64) -> (r: bool)
    ensures
        r == reached(ref_proc@.elapsed(now), fileconf@.grace()),
{
    let stopwaitsecs = match fileconf.stopwaitsecs {
        Some(n) => n,
        None => DEFAULT_STOPWAITSECS,
    };
    has_reached(ref_proc.elapsed(now), stopwaitsecs)
}

pub fn always_true(_fileconf: &File, _ref_proc: &Proc) -> (r: bool)
    ensures
        r,
{
    true
}

pub fn always_false(_fileconf: &File, _ref_proc: &Proc) -> (r: bool)
    ensures
        !r,
{
    false
}

} // verus!
