use vstd::prelude::*;
use vstd::string::*;

use super::file::{clone_option, FileLog, FileLogView, Files};
use super::loop_exec::{
    all_wf, event_for, exec_loop, find_spawn, lemma_filter_map_step, lemma_flatten_step,
    procs_view, reports_view, spawn_for, ticked, ticked_orders, watches_view, LoopRestart,
    Report, ReportView, Step, Watch, WatchView,
};
use super::parse::{File, FileView};
use super::proc::{Order, Proc, ProcView};
use super::tool::{n_name, n_name_spec};
use super::yaml::Node;
use crate::State;

verus! {

/// The slots of one program, with the program's configuration.
#[derive(Debug)]
pub struct Task {
    pub name: String,
    pub process_lst: Vec<Proc>,
    pub parse_file: File,
    /// What the configuration says of the program's output.
    pub log_conf: FileLog,
    pub num_restart: i64,
    /// Unset once a new configuration no longer names the program.
    pub is_active: bool,
}

/// Mathematical model of a [`Task`].
pub ghost struct TaskView {
    pub name: Seq<char>,
    pub procs: Seq<ProcView>,
    pub file: FileView,
    pub log_conf: FileLogView,
    pub num_restart: i64,
    pub is_active: bool,
}

impl View for Task {
    type V = TaskView;

    open spec fn view(&self) -> TaskView {
        TaskView {
            name: self.name@,
            procs: procs_view(self.process_lst@),
            file: self.parse_file@,
            log_conf: self.log_conf@,
            num_restart: self.num_restart,
            is_active: self.is_active,
        }
    }
}

/// The slots after a start request to each: a slot starts with the child
/// that the reports hold for it.
pub open spec fn started(procs: Seq<ProcView>, reports: Seq<ReportView>, now: u64) -> Seq<
    ProcView,
> {
    procs.map_values(|p: ProcView| p.start(spawn_for(reports, p.name), now))
}

pub open spec fn started_orders(procs: Seq<ProcView>, reports: Seq<ReportView>) -> Seq<Order> {
    procs.map_values(|p: ProcView| p.start_orders(spawn_for(reports, p.name))).flatten()
}

/// The slots after a stop request to each.
pub open spec fn stopped(procs: Seq<ProcView>, now: u64) -> Seq<ProcView> {
    procs.map_values(|p: ProcView| p.stop(now))
}

pub open spec fn stopped_orders(procs: Seq<ProcView>) -> Seq<Order> {
    procs.map_values(|p: ProcView| p.stop_orders()).flatten()
}

/// What the caller has to do when a slot leaves the registry at `now`: the
/// slot is asked to stop, and a child that it still owns is given up.
pub open spec fn dismissal(p: ProcView, now: u64) -> Seq<Order> {
    p.stop_orders() + match p.stop(now).child {
        Some(pid) => seq![Order::Abandon(pid)],
        None => Seq::empty(),
    }
}

/// What the caller has to do when the slots from number `count` on leave
/// the registry, the last of them first.
pub open spec fn shrink_orders(procs: Seq<ProcView>, count: nat, now: u64) -> Seq<Order>
    decreases procs.len(),
{
    if procs.len() <= count {
        Seq::empty()
    } else {
        dismissal(procs.last(), now) + shrink_orders(procs.drop_last(), count, now)
    }
}

/// The program that the entry `doc` of a configuration describes, without
/// slots, its command split into command and arguments.
pub open spec fn task_of(doc: Node) -> TaskView {
    TaskView {
        name: Seq::empty(),
        procs: Seq::empty(),
        file: super::parse::file_of(doc).split_command(),
        log_conf: super::file::log_of(doc, None),
        num_restart: 0,
        is_active: true,
    }
}

/// A counter after `k` more were counted; it stays at the largest value it
/// can hold.
pub open spec fn count_up(n: i64, k: nat) -> i64 {
    if n + k > i64::MAX {
        i64::MAX
    } else {
        (n + k) as i64
    }
}

/// Counts `k` more on the counter `n`.
pub fn counted(n: i64, k: usize) -> (r: i64)
    ensures
        r == count_up(n, k as nat),
{
    let sum: i128 = n as i128 + k as i128;
    if sum > i64::MAX as i128 {
        i64::MAX
    } else {
        sum as i64
    }
}

impl TaskView {
    /// The program with the defaults applied to its configuration and with
    /// its slots made: as many as the configuration asks for, if the program
    /// can be launched.
    pub open spec fn commanded(self, name: Seq<char>) -> TaskView {
        let with_defaults = TaskView { file: self.file.with_defaults(), ..self };
        TaskView {
            procs: self.procs + with_defaults.replicas(
                name,
                0,
                if self.file.launchable() {
                    self.file.replicas_or_default() as int
                } else {
                    0
                },
                true,
            ),
            ..with_defaults
        }
    }

    /// The invariant of a program's slots: each keeps its own.
    pub open spec fn wf(self) -> bool {
        all_wf(self.procs)
    }

    /// The program's name; empty where the configuration gives none.
    pub open spec fn label(self) -> Seq<char> {
        match self.file.name {
            Some(name) => name,
            None => Seq::empty(),
        }
    }

    /// Where the output of a new slot goes. The first slot of a program, and
    /// each slot made together with it, writes to the files that the
    /// configuration names.
    pub open spec fn replica_log(self, name: Seq<char>, first: bool) -> FileLogView {
        FileLogView {
            file_stdout: if first && !self.file.bool_stdout {
                self.log_conf.path_stdout_logfile
            } else {
                self.log_conf.file_stdout
            },
            file_stderr: if first && !self.file.bool_stderr {
                self.log_conf.path_stderr_logfile
            } else {
                self.log_conf.file_stderr
            },
            name: Some(name),
            ..self.log_conf
        }
    }

    /// Seconds that a new slot expects its child to stay up.
    pub open spec fn expected_uptime(self) -> u64 {
        match self.file.starttime {
            Some(secs) => if secs > 0 {
                secs as u64
            } else {
                0
            },
            None => 0,
        }
    }

    /// A new slot with the number `index` for the program named `base`:
    /// stopped, never spawned, with the command, arguments, mask, signal and
    /// accepted exit codes of the program.
    pub open spec fn replica(self, base: Seq<char>, index: int, first: bool) -> ProcView {
        let name = n_name_spec(base, index);
        ProcView {
            name: Some(name),
            command: Some(
                match self.file.path_command {
                    Some(command) => command,
                    None => Seq::empty(),
                },
            ),
            args: self.file.args_or_none(),
            umask: self.file.umask,
            child: None,
            exit_error: None,
            s_file: self.replica_log(name, first),
            state: State::STOPPED,
            pid: None,
            description: "Not Started"@,
            started_time: None,
            nbr_restart: 0,
            stopsignal: self.file.stopsignal,
            exp_exit: self.file.exitcodes,
            exp_duration: self.expected_uptime(),
        }
    }

    /// `count` new slots, numbered from `from` on. Slots that are made
    /// `together` all write where the first slot of a program does.
    pub open spec fn replicas(self, base: Seq<char>, from: int, count: int, together: bool) -> Seq<
        ProcView,
    > {
        Seq::new(
            if count > 0 {
                count as nat
            } else {
                0
            },
            |j: int| self.replica(base, from + j, together || from + j == 0),
        )
    }

    /// How many slots can be added to the program when `to_be_add` are asked
    /// for: none to a program that cannot be launched, and no more than can
    /// still be numbered.
    pub open spec fn room(self, to_be_add: i64) -> int {
        if !self.file.launchable() || to_be_add <= 0 || self.procs.len() >= i64::MAX {
            0
        } else if self.procs.len() + to_be_add > i64::MAX {
            i64::MAX - self.procs.len()
        } else {
            to_be_add as int
        }
    }

    /// The program with `to_be_add` more slots at the end.
    pub open spec fn grown(self, to_be_add: i64) -> TaskView {
        TaskView {
            procs: self.procs + self.replicas(
                self.label(),
                self.procs.len() as int,
                self.room(to_be_add),
                false,
            ),
            ..self
        }
    }

    /// How many slots are left when `to_be_remove` are asked to leave.
    pub open spec fn left(self, to_be_remove: i64) -> nat {
        if to_be_remove <= 0 {
            self.procs.len()
        } else if to_be_remove >= self.procs.len() {
            0
        } else {
            (self.procs.len() - to_be_remove) as nat
        }
    }

    /// The program without its last `to_be_remove` slots.
    pub open spec fn shrunk(self, to_be_remove: i64) -> TaskView {
        TaskView { procs: self.procs.take(self.left(to_be_remove) as int), ..self }
    }

    /// The program with `count` slots: new ones are added at the end, and
    /// the last ones leave first.
    pub open spec fn resized(self, count: usize) -> TaskView {
        if count > self.procs.len() {
            self.grown(self.gap(count as nat))
        } else {
            TaskView { procs: self.procs.take(count as int), ..self }
        }
    }

    pub open spec fn resize_orders(self, count: usize, now: u64) -> Seq<Order> {
        shrink_orders(self.procs, count as nat, now)
    }

    /// How many slots the program lacks to have `count`.
    pub open spec fn gap(self, count: nat) -> i64 {
        if count <= self.procs.len() {
            0
        } else if count - self.procs.len() > i64::MAX {
            i64::MAX
        } else {
            (count - self.procs.len()) as i64
        }
    }

    /// The program with the configuration of `new`, which a new
    /// configuration gives it; its slots take the new stop signal.
    pub open spec fn respecified(self, new: TaskView) -> TaskView {
        TaskView {
            file: new.file,
            log_conf: new.log_conf,
            is_active: true,
            procs: self.procs.map_values(
                |p: ProcView| ProcView { stopsignal: new.file.stopsignal, ..p },
            ),
            ..self
        }
    }

    /// The program with the configuration of `new` and no more slots than
    /// `new` has.
    pub open spec fn narrowed(self, new: TaskView) -> TaskView {
        let t = self.respecified(new);
        if new.procs.len() < t.procs.len() {
            TaskView { procs: t.procs.take(new.procs.len() as int), ..t }
        } else {
            t
        }
    }

    pub open spec fn narrow_orders(self, new: TaskView, now: u64) -> Seq<Order> {
        shrink_orders(self.respecified(new).procs, new.procs.len(), now)
    }

    /// The program with the configuration of `new` and no fewer slots than
    /// `new` has.
    pub open spec fn widened(self, new: TaskView) -> TaskView {
        (TaskView { file: new.file, log_conf: new.log_conf, ..self }).grown(
            self.gap(new.procs.len()),
        )
    }

    /// The program once no configuration names it any more: its slots are
    /// asked to stop.
    pub open spec fn retired(self, now: u64) -> TaskView {
        TaskView { procs: stopped(self.procs, now), is_active: false, ..self }
    }

    /// What the program asks of its slots when a configuration is taken up:
    /// to start, if it is still configured and has `autostart` set, else to stop.
    pub open spec fn wants_start(self) -> bool {
        self.is_active && self.file.autostart_or_default()
    }

    pub open spec fn autostarted(self, reports: Seq<ReportView>, now: u64) -> TaskView {
        TaskView {
            procs: if self.wants_start() {
                started(self.procs, reports, now)
            } else {
                stopped(self.procs, now)
            },
            ..self
        }
    }

    pub open spec fn autostart_orders(self, reports: Seq<ReportView>) -> Seq<Order> {
        if self.wants_start() {
            started_orders(self.procs, reports)
        } else {
            stopped_orders(self.procs)
        }
    }

    /// The program after a tick of the reconciliation loop.
    pub open spec fn ticked(self, reports: Seq<ReportView>, now: u64, stamp: Seq<char>) -> TaskView {
        (TaskView { procs: ticked(self.procs, self.file, reports, now, stamp), ..self }).drained()
    }

    /// The slots that are left after a tick: removed slots, which have
    /// neither a name nor a child, go.
    pub open spec fn drained(self) -> TaskView {
        TaskView { procs: self.procs.filter(|p: ProcView| !p.placeholder()), ..self }
    }

    /// The transitions that a tick makes on the slots of the program.
    pub open spec fn steps(self, reports: Seq<ReportView>, now: u64) -> Seq<Step> {
        self.procs.map_values(
            |p: ProcView| p.choose_step(self.file, event_for(reports, p.name), now),
        )
    }

    /// What the next tick has to be told of the program's slots.
    pub open spec fn tick_needs(self) -> Seq<WatchView> {
        self.procs.filter_map(|p: ProcView| p.tick_need(self.file.directory))
    }

    /// What has to be told of the program's slots before they are started
    /// or stopped as the configuration asks: the outcome of a spawn for
    /// each slot that will start.
    pub open spec fn autostart_needs(self) -> Seq<WatchView> {
        if self.wants_start() {
            self.procs.filter_map(|p: ProcView| p.start_need(self.file.directory))
        } else {
            Seq::empty()
        }
    }

    /// The program after each slot has taken up the child that the
    /// reports hold for it.
    pub open spec fn taken_up(self, reports: Seq<ReportView>, now: u64) -> TaskView {
        TaskView {
            procs: self.procs.map_values(
                |p: ProcView|
                    match spawn_for(reports, p.name) {
                        Some(pid) => p.launched(pid, now),
                        None => p,
                    },
            ),
            ..self
        }
    }

    /// The program with a file chosen for each stream of each slot that
    /// has none yet.
    pub open spec fn with_files(self, time: Seq<char>) -> TaskView {
        TaskView {
            procs: self.procs.map_values(
                |p: ProcView| ProcView { s_file: p.s_file.with_files(time), ..p },
            ),
            ..self
        }
    }

    /// Every slot is stopped, running or has given up.
    pub open spec fn settled(self) -> bool {
        forall|i: int| 0 <= i < self.procs.len() ==> (#[trigger] self.procs[i]).state.stable()
    }

    /// A program that no configuration names any more and that owns no child
    /// is dropped.
    pub open spec fn finished(self) -> bool {
        !self.is_active && forall|i: int|
            0 <= i < self.procs.len() ==> (#[trigger] self.procs[i]).child is None
    }
}

impl Files for Task {
    fn files(&mut self, time: &str)
        ensures
            final(self)@ == old(self)@.with_files(time@),
            old(self)@.wf() ==> final(self)@.wf(),
    {
        let ghost before = self@.procs;
        let mut i: usize = 0;
        while i < self.process_lst.len()
            invariant
                i <= self.process_lst.len(),
                self.process_lst.len() == before.len(),
                before == old(self)@.procs,
                self@ == (TaskView { procs: self@.procs, ..old(self)@ }),
                forall|j: int|
                    0 <= j < i ==> (#[trigger] self.process_lst@[j])@ == (ProcView {
                        s_file: before[j].s_file.with_files(time@),
                        ..before[j]
                    }),
                forall|j: int|
                    i <= j < before.len() ==> (#[trigger] self.process_lst@[j])@ == before[j],
            decreases self.process_lst.len() - i,
        {
            self.process_lst[i].files(time);
            i = i + 1;
        }
        proof {
            assert(self@.procs =~= old(self)@.with_files(time@).procs);
        }
    }
}

impl LoopRestart for Task {
    /// Every slot takes up the child that the reports hold for it.
    fn start_loop(&mut self, reports: &Vec<Report>, now: u64)
        ensures
            final(self)@ == old(self)@.taken_up(reports_view(reports@), now),
    {
        let ghost before = self@.procs;
        let ghost seen = reports_view(reports@);
        let mut i: usize = 0;
        while i < self.process_lst.len()
            invariant
                i <= self.process_lst.len(),
                self.process_lst.len() == before.len(),
                before == old(self)@.procs,
                seen == reports_view(reports@),
                self@ == (TaskView { procs: self@.procs, ..old(self)@ }),
                forall|j: int|
                    0 <= j < i ==> (#[trigger] self.process_lst@[j])@ == (match spawn_for(
                        seen,
                        before[j].name,
                    ) {
                        Some(pid) => before[j].launched(pid, now),
                        None => before[j],
                    }),
                forall|j: int|
                    i <= j < before.len() ==> (#[trigger] self.process_lst@[j])@ == before[j],
            decreases self.process_lst.len() - i,
        {
            self.process_lst[i].start_loop(reports, now);
            i = i + 1;
        }
        assert(self@.procs =~= old(self)@.taken_up(seen, now).procs);
    }
}

impl Clone for Task {
    fn clone(&self) -> (r: Self)
        ensures
            r@ == self@,
    {
        let mut process_lst: Vec<Proc> = Vec::new();
        let mut i: usize = 0;
        while i < self.process_lst.len()
            invariant
                i <= self.process_lst.len(),
                process_lst.len() == i,
                procs_view(process_lst@) == procs_view(self.process_lst@).take(i as int),
            decreases self.process_lst.len() - i,
        {
            let copy = self.process_lst[i].clone();
            process_lst.push(copy);
            i = i + 1;
        }
        assert(procs_view(self.process_lst@).take(i as int) =~= procs_view(self.process_lst@));
        Task {
            name: self.name.clone(),
            process_lst,
            parse_file: self.parse_file.clone(),
            log_conf: self.log_conf.clone(),
            num_restart: self.num_restart,
            is_active: self.is_active,
        }
    }
}

impl Task {
    /// The program that the entry `task_config` of a configuration
    /// describes, without slots, its command split into command and arguments.
    pub fn prepared(task_config: &Node) -> (r: Self)
        ensures
            r@ == task_of(*task_config),
            r@.wf(),
    {
        let mut task = Self::new(task_config);
        task.parse_file.init_args();
        task
    }

    /// The program that the entry `task_config` of a configuration
    /// describes, still without slots.
    pub fn new(task_config: &Node) -> (r: Self)
        ensures
            r@ == (TaskView {
                name: Seq::empty(),
                procs: Seq::empty(),
                file: super::parse::file_of(*task_config),
                log_conf: super::file::log_of(*task_config, None),
                num_restart: 0,
                is_active: true,
            }),
            r@.wf(),
    {
        let r = Task {
            name: String::new(),
            process_lst: Vec::new(),
            parse_file: File::from_yaml(task_config),
            log_conf: FileLog::from_file(task_config, None),
            num_restart: 0,
            is_active: true,
        };
        assert(procs_view(r.process_lst@) =~= Seq::<ProcView>::empty());
        r
    }

    /// A new slot named `n_name`, writing where `filelog` says. For the
    /// first slot of a program `filelog` is pointed at the files that the
    /// configuration names, and stays so for the slots made after it.
    pub fn proc_file_shared_log(&self, i: &i64, filelog: &mut FileLog, n_name: String) -> (r: Proc)
        ensures
            final(filelog)@ == (FileLogView {
                file_stdout: if *i == 0 && !self.parse_file.bool_stdout {
                    old(filelog)@.path_stdout_logfile
                } else {
                    old(filelog)@.file_stdout
                },
                file_stderr: if *i == 0 && !self.parse_file.bool_stderr {
                    old(filelog)@.path_stderr_logfile
                } else {
                    old(filelog)@.file_stderr
                },
                name: Some(n_name@),
                ..old(filelog)@
            }),
            r@ == (ProcView {
                name: Some(n_name@),
                command: Some(
                    match self@.file.path_command {
                        Some(command) => command,
                        None => Seq::empty(),
                    },
                ),
                args: Seq::empty(),
                umask: None,
                child: None,
                exit_error: None,
                s_file: final(filelog)@,
                state: State::STOPPED,
                pid: None,
                description: "Not Started"@,
                started_time: None,
                nbr_restart: 0,
                stopsignal: super::parse::Signal::SIGTERM,
                exp_exit: seq![0i32],
                exp_duration: 0,
            }),
    {
        if !self.parse_file.bool_stdout && *i == 0 {
            filelog.file_stdout = clone_option(filelog.path_stdout_logfile.as_ref());
        }
        if !self.parse_file.bool_stderr && *i == 0 {
            filelog.file_stderr = clone_option(filelog.path_stderr_logfile.as_ref());
        }
        filelog.name = Some(n_name.clone());
        let command = match &self.parse_file.path_command {
            Some(command) => command.clone(),
            None => String::new(),
        };
        Proc::new(command, filelog.clone(), Some(n_name))
    }

    pub fn proc_file_log(&self, n_name: String, i: &i64, filelog: &mut FileLog) -> (r: Proc)
        ensures
            final(filelog)@ == (FileLogView {
                file_stdout: if *i == 0 && !self.parse_file.bool_stdout {
                    old(filelog)@.path_stdout_logfile
                } else {
                    old(filelog)@.file_stdout
                },
                file_stderr: if *i == 0 && !self.parse_file.bool_stderr {
                    old(filelog)@.path_stderr_logfile
                } else {
                    old(filelog)@.file_stderr
                },
                name: Some(n_name@),
                ..old(filelog)@
            }),
            r@ == (ProcView {
                name: Some(n_name@),
                command: Some(
                    match self@.file.path_command {
                        Some(command) => command,
                        None => Seq::empty(),
                    },
                ),
                args: self@.file.args_or_none(),
                umask: self@.file.umask,
                child: None,
                exit_error: None,
                s_file: final(filelog)@,
                state: State::STOPPED,
                pid: None,
                description: "Not Started"@,
                started_time: None,
                nbr_restart: 0,
                stopsignal: self@.file.stopsignal,
                exp_exit: self@.file.exitcodes,
                exp_duration: self@.expected_uptime(),
            }),
            r@.wf(),
    {
        let mut new_proc = self.proc_file_shared_log(i, filelog, n_name);
        new_proc.set_args_task(&self.parse_file);
        new_proc.setup_command_umask(&self.parse_file);
        new_proc.exp_exit = self.parse_file.exitcodes.clone();
        new_proc.stopsignal = self.parse_file.stopsignal;
        new_proc.exp_duration = match self.parse_file.starttime {
            Some(secs) => if secs > 0 {
                secs as u64
            } else {
                0
            },
            None => 0,
        };
        new_proc
    }

    /// Adds `count` new slots, numbered from `from` on.
    fn append_replicas(&mut self, base: &String, from: i64, count: i64, together: bool)
        requires
            0 <= from,
            0 <= count,
            from + count <= i64::MAX,
        ensures
            final(self)@ == (TaskView {
                procs: old(self)@.procs + old(self)@.replicas(
                    base@,
                    from as int,
                    count as int,
                    together,
                ),
                ..old(self)@
            }),
            old(self)@.wf() ==> final(self)@.wf(),
    {
        let ghost before = self@;
        let mut j: i64 = 0;
        while j < count
            invariant
                0 <= j <= count,
                0 <= from,
                from + count <= i64::MAX,
                before == old(self)@,
                self@ == (TaskView {
                    procs: before.procs + before.replicas(base@, from as int, j as int, together),
                    ..before
                }),
                before.wf() ==> self@.wf(),
            decreases count - j,
        {
            let index: i64 = from + j;
            let ghost so_far = self@;
            let mut filelog = self.log_conf.clone();
            let shared: i64 = if together {
                0
            } else {
                index
            };
            let new_proc = self.proc_file_log(n_name(base.clone(), index), &shared, &mut filelog);
            self.process_lst.push(new_proc);
            proof {
                assert(procs_view(self.process_lst@) =~= so_far.procs.push(new_proc@));
                assert(so_far.procs.push(new_proc@) =~= before.procs + before.replicas(
                    base@,
                    from as int,
                    j + 1,
                    together,
                ));
            }
            j = j + 1;
        }
    }

    /// Applies the defaults to the configuration and, where the program can
    /// be launched, makes its slots: as many as the configuration asks for,
    /// named after `name`. Returns the number of slots asked for.
    pub fn set_command(&mut self, name: String) -> (numprocs: i64)
        ensures
            numprocs == old(self)@.file.replicas_or_default(),
            final(self)@ == old(self)@.commanded(name@),
            old(self)@.wf() ==> final(self)@.wf(),
    {
        let numprocs = self.getnumprocs();
        let lauchable = self.launchable();
        self.parse_file.set_conf_default();
        if lauchable && numprocs > 0 {
            self.append_replicas(&name, 0, numprocs, true);
        }
        numprocs
    }

    /// Adds `to_be_add` slots at the end, numbered on from the last.
    pub fn add_nb_process(&mut self, to_be_add: i64)
        ensures
            final(self)@ == old(self)@.grown(to_be_add),
            old(self)@.wf() ==> final(self)@.wf(),
    {
        let len = self.process_lst.len();
        if !self.launchable() || to_be_add <= 0 || len as u64 >= i64::MAX as u64 {
            return ;
        }
        let from: i64 = len as i64;
        let count: i64 = if to_be_add > i64::MAX - from {
            i64::MAX - from
        } else {
            to_be_add
        };
        let base = self.getnameparse();
        self.append_replicas(&base, from, count, false);
    }

    /// Asks the slots from number `count` on to stop and removes them, the
    /// last one first.
    fn shrink_to(&mut self, count: usize, now: u64, orders: &mut Vec<Order>)
        ensures
            final(self)@ == (TaskView {
                procs: if count <= old(self)@.procs.len() {
                    old(self)@.procs.take(count as int)
                } else {
                    old(self)@.procs
                },
                ..old(self)@
            }),
            final(orders)@ == old(orders)@ + shrink_orders(old(self)@.procs, count as nat, now),
            old(self)@.wf() ==> final(self)@.wf(),
    {
        let ghost before = self@;
        assert(before.procs.take(before.procs.len() as int) =~= before.procs);
        while self.process_lst.len() > count
            invariant
                before == old(self)@,
                self.process_lst.len() <= before.procs.len(),
                count <= before.procs.len() ==> count <= self.process_lst.len(),
                count > before.procs.len() ==> self.process_lst.len() == before.procs.len(),
                self@ == (TaskView {
                    procs: before.procs.take(self.process_lst.len() as int),
                    ..before
                }),
                orders@ + shrink_orders(self@.procs, count as nat, now) == old(orders)@
                    + shrink_orders(before.procs, count as nat, now),
            decreases self.process_lst.len(),
        {
            let ghost held = self@.procs;
            let mut last = self.process_lst.pop().unwrap();
            assert(procs_view(self.process_lst@) =~= held.drop_last());
            assert(held.drop_last() =~= before.procs.take(self.process_lst.len() as int));
            let _ = last.stop(now, orders);
            match last.child {
                Some(pid) => {
                    orders.push(Order::Abandon(pid));
                },
                None => {},
            }
        }
    }

    /// Asks the last `to_be_remove` slots to stop and removes them, the last
    /// one first.
    pub fn remove_nb_process(&mut self, to_be_remove: i64, now: u64, orders: &mut Vec<Order>)
        ensures
            final(self)@ == old(self)@.shrunk(to_be_remove),
            final(orders)@ == old(orders)@ + shrink_orders(
                old(self)@.procs,
                old(self)@.left(to_be_remove),
                now,
            ),
            old(self)@.wf() ==> final(self)@.wf(),
    {
        let len = self.process_lst.len();
        if to_be_remove <= 0 {
            self.shrink_to(len, now, orders);
        } else if to_be_remove as u64 >= len as u64 {
            self.shrink_to(0, now, orders);
        } else {
            self.shrink_to(len - to_be_remove as usize, now, orders);
        }
    }

    /// Brings the program to `count` slots.
    pub fn resize(&mut self, count: usize, now: u64, orders: &mut Vec<Order>)
        ensures
            final(self)@ == old(self)@.resized(count),
            final(orders)@ == old(orders)@ + old(self)@.resize_orders(count, now),
            old(self)@.wf() ==> final(self)@.wf(),
    {
        let len = self.process_lst.len();
        if count > len {
            self.add_nb_process(Self::lacking(len, count));
        } else {
            self.shrink_to(count, now, orders);
        }
    }

    /// How many slots a program with `len` slots lacks to have `count`.
    fn lacking(len: usize, count: usize) -> (r: i64)
        ensures
            r == (if count <= len {
                0
            } else if count - len > i64::MAX {
                i64::MAX
            } else {
                (count - len) as i64
            }),
    {
        if count <= len {
            0
        } else if (count - len) as u64 > i64::MAX as u64 {
            i64::MAX
        } else {
            (count - len) as i64
        }
    }

    /// Takes the configuration of `new`; the slots take its stop signal.
    pub fn respecify(&mut self, new: &Task)
        ensures
            final(self)@ == old(self)@.respecified(new@),
            old(self)@.wf() ==> final(self)@.wf(),
    {
        self.parse_file = new.parse_file.clone();
        self.log_conf = new.log_conf.clone();
        self.is_active = true;
        let ghost before = old(self)@.procs;
        let mut i: usize = 0;
        while i < self.process_lst.len()
            invariant
                i <= self.process_lst.len(),
                self.process_lst.len() == before.len(),
                before == old(self)@.procs,
                self.parse_file@ == new@.file,
                self@ == (TaskView { procs: self@.procs, ..old(self)@.respecified(new@) }),
                forall|j: int|
                    0 <= j < i ==> (#[trigger] self.process_lst@[j])@ == (ProcView {
                        stopsignal: new@.file.stopsignal,
                        ..before[j]
                    }),
                forall|j: int|
                    i <= j < before.len() ==> (#[trigger] self.process_lst@[j])@ == before[j],
            decreases self.process_lst.len() - i,
        {
            self.process_lst[i].stopsignal = self.parse_file.stopsignal;
            i = i + 1;
        }
        proof {
            assert(self@.procs =~= old(self)@.respecified(new@).procs);
        }
    }

    /// Takes the configuration of `new` and, if it has more slots than
    /// `new`, removes the last ones.
    pub fn narrow(&mut self, new: &Task, now: u64, orders: &mut Vec<Order>)
        ensures
            final(self)@ == old(self)@.narrowed(new@),
            final(orders)@ == old(orders)@ + old(self)@.narrow_orders(new@, now),
            old(self)@.wf() ==> final(self)@.wf(),
    {
        self.respecify(new);
        assert(self@.procs.take(self@.procs.len() as int) =~= self@.procs);
        self.shrink_to(new.process_lst.len(), now, orders);
    }

    /// Takes the configuration of `new` and, if it has fewer slots than
    /// `new`, adds new ones.
    pub fn widen(&mut self, new: &Task)
        ensures
            final(self)@ == old(self)@.widened(new@),
            old(self)@.wf() ==> final(self)@.wf(),
    {
        let to_be_add = Self::lacking(self.process_lst.len(), new.process_lst.len());
        self.parse_file = new.parse_file.clone();
        self.log_conf = new.log_conf.clone();
        self.add_nb_process(to_be_add);
    }

    /// Marks the program as no longer configured and asks its slots to stop.
    pub fn remove_all_process(&mut self, now: u64, orders: &mut Vec<Order>)
        ensures
            final(self)@ == old(self)@.retired(now),
            final(orders)@ == old(orders)@ + stopped_orders(old(self)@.procs),
            old(self)@.wf() ==> final(self)@.wf(),
    {
        self.stop_all_process(now, orders);
        self.is_active = false;
    }

    /// Asks every slot to start; each is given the child that the reports
    /// hold for it.
    pub fn start_all_proc(&mut self, reports: &Vec<Report>, now: u64, orders: &mut Vec<Order>)
        ensures
            final(self)@ == (TaskView {
                procs: started(old(self)@.procs, reports_view(reports@), now),
                ..old(self)@
            }),
            final(orders)@ == old(orders)@ + started_orders(
                old(self)@.procs,
                reports_view(reports@),
            ),
            old(self)@.wf() ==> final(self)@.wf(),
    {
        let ghost before = self@.procs;
        let ghost seen = reports_view(reports@);
        let ghost part = |p: ProcView| p.start_orders(spawn_for(seen, p.name));
        let mut i: usize = 0;
        while i < self.process_lst.len()
            invariant
                i <= self.process_lst.len(),
                self.process_lst.len() == before.len(),
                before == old(self)@.procs,
                seen == reports_view(reports@),
                part == |p: ProcView| p.start_orders(spawn_for(seen, p.name)),
                self@ == (TaskView { procs: self@.procs, ..old(self)@ }),
                forall|j: int|
                    0 <= j < i ==> (#[trigger] self.process_lst@[j])@ == before[j].start(
                        spawn_for(seen, before[j].name),
                        now,
                    ),
                forall|j: int|
                    i <= j < before.len() ==> (#[trigger] self.process_lst@[j])@ == before[j],
                orders@ == old(orders)@ + before.take(i as int).map_values(part).flatten(),
            decreases self.process_lst.len() - i,
        {
            let spawned = find_spawn(reports, &self.process_lst[i].name);
            let _ = self.process_lst[i].start(spawned, now, orders);
            proof {
                lemma_flatten_step(before, part, i as int);
            }
            i = i + 1;
        }
        proof {
            assert(before.take(before.len() as int) =~= before);
            assert(self@.procs =~= started(before, seen, now));
        }
    }

    /// Asks every slot to stop; a slot that is not running stays as it is.
    pub fn stop_all_process(&mut self, now: u64, orders: &mut Vec<Order>)
        ensures
            final(self)@ == (TaskView { procs: stopped(old(self)@.procs, now), ..old(self)@ }),
            final(orders)@ == old(orders)@ + stopped_orders(old(self)@.procs),
            old(self)@.wf() ==> final(self)@.wf(),
    {
        let ghost before = self@.procs;
        let ghost part = |p: ProcView| p.stop_orders();
        let mut i: usize = 0;
        while i < self.process_lst.len()
            invariant
                i <= self.process_lst.len(),
                self.process_lst.len() == before.len(),
                before == old(self)@.procs,
                part == |p: ProcView| p.stop_orders(),
                self@ == (TaskView { procs: self@.procs, ..old(self)@ }),
                forall|j: int|
                    0 <= j < i ==> (#[trigger] self.process_lst@[j])@ == before[j].stop(now),
                forall|j: int|
                    i <= j < before.len() ==> (#[trigger] self.process_lst@[j])@ == before[j],
                orders@ == old(orders)@ + before.take(i as int).map_values(part).flatten(),
            decreases self.process_lst.len() - i,
        {
            let _ = self.process_lst[i].stop(now, orders);
            proof {
                lemma_flatten_step(before, part, i as int);
            }
            i = i + 1;
        }
        proof {
            assert(before.take(before.len() as int) =~= before);
            assert(self@.procs =~= stopped(before, now));
        }
    }

    /// Starts the slots of a program that is configured with `autostart`,
    /// and stops those of any other.
    pub fn autostart_all(&mut self, reports: &Vec<Report>, now: u64, orders: &mut Vec<Order>)
        ensures
            final(self)@ == old(self)@.autostarted(reports_view(reports@), now),
            final(orders)@ == old(orders)@ + old(self)@.autostart_orders(reports_view(reports@)),
            old(self)@.wf() ==> final(self)@.wf(),
    {
        if self.is_active && self.autostart() {
            self.start_all_proc(reports, now, orders);
        } else {
            self.stop_all_process(now, orders);
        }
    }

    /// Removes the slots that have neither a name nor a child.
    pub fn drain_proc(&mut self)
        ensures
            final(self)@ == old(self)@.drained(),
            old(self)@.wf() ==> final(self)@.wf(),
    {
        let ghost before = self@.procs;
        let ghost keep = |p: ProcView| !p.placeholder();
        let mut i: usize = self.process_lst.len();
        proof {
            reveal_with_fuel(Seq::filter, 2);
            assert(before.take(before.len() as int) =~= before);
        }
        while i > 0
            invariant
                i <= before.len(),
                i <= self.process_lst.len(),
                before == old(self)@.procs,
                keep == |p: ProcView| !p.placeholder(),
                self@ == (TaskView { procs: self@.procs, ..old(self)@ }),
                self@.procs == before.take(i as int) + before.skip(i as int).filter(keep),
            decreases i,
        {
            i = i - 1;
            let ghost held = self@.procs;
            proof {
                reveal_with_fuel(Seq::filter, 2);
                assert(before.skip(i as int) =~= seq![before[i as int]] + before.skip(i + 1));
                Seq::filter_distributes_over_add(
                    seq![before[i as int]],
                    before.skip(i + 1),
                    keep,
                );
                assert(held[i as int] == before[i as int]);
            }
            if self.process_lst[i].name.is_none() && self.process_lst[i].child.is_none() {
                let _ = self.process_lst.remove(i);
                assert(self@.procs =~= held.remove(i as int));
            }
        }
        proof {
            if all_wf(before) {
                assert forall|j: int| 0 <= j < self@.procs.len() implies (
                #[trigger] self@.procs[j]).wf() by {
                    before.lemma_filter_contains_rev(keep, self@.procs[j]);
                }
            }
        }
    }

    /// One tick of the reconciliation loop on the program: every slot makes
    /// its transition, then the removed slots go.
    pub fn call_exec_loop(
        &mut self,
        reports: &Vec<Report>,
        now: u64,
        stamp: &str,
        orders: &mut Vec<Order>,
    )
        ensures
            final(self)@ == old(self)@.ticked(reports_view(reports@), now, stamp@),
            final(orders)@ == old(orders)@ + ticked_orders(
                old(self)@.procs,
                old(self)@.file,
                reports_view(reports@),
                now,
            ),
            old(self)@.wf() ==> final(self)@.wf(),
    {
        exec_loop(&mut self.process_lst, &self.parse_file, reports, now, stamp, orders);
        self.drain_proc();
    }

    /// The transitions that a tick with these reports makes on the slots.
    pub fn update_methods(&self, reports: &Vec<Report>, now: u64) -> (r: Vec<Step>)
        ensures
            r@ == self@.steps(reports_view(reports@), now),
    {
        let ghost procs = self@.procs;
        let ghost seen = reports_view(reports@);
        let mut steps: Vec<Step> = Vec::new();
        let mut i: usize = 0;
        while i < self.process_lst.len()
            invariant
                i <= self.process_lst.len(),
                procs == self@.procs,
                seen == reports_view(reports@),
                steps@ == self@.steps(seen, now).take(i as int),
            decreases self.process_lst.len() - i,
        {
            let event = super::loop_exec::find_event(reports, &self.process_lst[i].name);
            let step = self.process_lst[i].update_methods(&self.parse_file, event, now);
            steps.push(step);
            i = i + 1;
        }
        steps
    }

    /// What the next tick has to be told of the program's slots.
    pub fn get_tick_needs(&self, watches: &mut Vec<Watch>)
        ensures
            watches_view(final(watches)@) == watches_view(old(watches)@) + self@.tick_needs(),
    {
        let ghost procs = self@.procs;
        let ghost need = |p: ProcView| p.tick_need(self@.file.directory);
        let ghost start = watches_view(watches@);
        let mut i: usize = 0;
        while i < self.process_lst.len()
            invariant
                i <= self.process_lst.len(),
                procs == self@.procs,
                need == |p: ProcView| p.tick_need(self@.file.directory),
                start == watches_view(old(watches)@),
                watches_view(watches@) == start + procs.take(i as int).filter_map(need),
            decreases self.process_lst.len() - i,
        {
            let ghost listed = watches_view(watches@);
            proof {
                lemma_filter_map_step(procs, need, i as int);
            }
            match self.process_lst[i].get_tick_need(&self.parse_file.directory) {
                Some(watch) => {
                    watches.push(watch);
                    assert(watches_view(watches@) =~= listed.push(watch@));
                },
                None => {
                },
            }
            i = i + 1;
        }
        assert(procs.take(i as int) =~= procs);
    }

    /// What has to be told of the program's slots before `autostart_all`.
    pub fn get_autostart_needs(&self, watches: &mut Vec<Watch>)
        ensures
            watches_view(final(watches)@) == watches_view(old(watches)@) + self@.autostart_needs(),
    {
        let ghost start = watches_view(watches@);
        if !(self.is_active && self.autostart()) {
            return ;
        }
        let ghost procs = self@.procs;
        let ghost need = |p: ProcView| p.start_need(self@.file.directory);
        let mut i: usize = 0;
        while i < self.process_lst.len()
            invariant
                i <= self.process_lst.len(),
                procs == self@.procs,
                need == |p: ProcView| p.start_need(self@.file.directory),
                start == watches_view(old(watches)@),
                watches_view(watches@) == start + procs.take(i as int).filter_map(need),
            decreases self.process_lst.len() - i,
        {
            let ghost listed = watches_view(watches@);
            proof {
                lemma_filter_map_step(procs, need, i as int);
            }
            match self.process_lst[i].get_start_need(&self.parse_file.directory) {
                Some(watch) => {
                    watches.push(watch);
                    assert(watches_view(watches@) =~= listed.push(watch@));
                },
                None => {
                },
            }
            i = i + 1;
        }
        assert(procs.take(i as int) =~= procs);
    }

    /// Whether the program can be dropped: no configuration names it any
    /// more, and none of its slots owns a child.
    pub fn is_finished(&self) -> (r: bool)
        ensures
            r == self@.finished(),
    {
        if self.is_active {
            return false;
        }
        let mut i: usize = 0;
        while i < self.process_lst.len()
            invariant
                i <= self.process_lst.len(),
                !self.is_active,
                forall|j: int| 0 <= j < i ==> (#[trigger] self@.procs[j]).child is None,
            decreases self.process_lst.len() - i,
        {
            assert(self@.procs[i as int] == self.process_lst@[i as int]@);
            if self.process_lst[i].child.is_some() {
                return false;
            }
            i = i + 1;
        }
        true
    }

    /// Whether every slot is in a state that it leaves only on a request or
    /// when its child exits.
    pub fn is_stable(&self) -> (r: bool)
        ensures
            r == self@.settled(),
    {
        let mut i: usize = 0;
        while i < self.process_lst.len()
            invariant
                i <= self.process_lst.len(),
                forall|j: int| 0 <= j < i ==> (#[trigger] self@.procs[j]).state.stable(),
            decreases self.process_lst.len() - i,
        {
            assert(self@.procs[i as int] == self.process_lst@[i as int]@);
            match self.process_lst[i].state {
                State::STOPPED | State::RUNNING | State::FATAL => {},
                _ => {
                    return false;
                },
            }
            i = i + 1;
        }
        true
    }

    pub fn launchable(&self) -> (r: bool)
        ensures
            r == self@.file.launchable(),
    {
        self.parse_file.prgm_is_launchable()
    }

    pub fn getnumprocs(&self) -> (r: i64)
        ensures
            r == self@.file.replicas_or_default(),
    {
        match self.parse_file.numprocs {
            Some(n) => n,
            None => 1,
        }
    }

    pub fn getnameparse(&self) -> (r: String)
        ensures
            r@ == self@.label(),
    {
        match &self.parse_file.name {
            Some(name) => name.clone(),
            None => String::new(),
        }
    }

    pub fn getpathref(&self) -> (r: &String)
        requires
            self.parse_file.path_command is Some,
        ensures
            Some(r@) == self@.file.path_command,
    {
        self.parse_file.path_command.as_ref().unwrap()
    }

    pub fn getnbrestart(&self) -> (r: i64)
        ensures
            r == self@.file.replicas_or_default(),
    {
        self.getnumprocs()
    }

    pub fn getboolfile(&self) -> (r: &File)
        ensures
            *r == self.parse_file,
    {
        &self.parse_file
    }

    pub fn getautostart(&self) -> (r: bool)
        ensures
            r == self@.file.autostart_or_default(),
    {
        self.autostart()
    }

    pub fn autostart(&self) -> (r: bool)
        ensures
            r == self@.file.autostart_or_default(),
    {
        match self.parse_file.autostart {
            Some(b) => b,
            None => true,
        }
    }
}

} // verus!
