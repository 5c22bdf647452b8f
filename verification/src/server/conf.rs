use vstd::prelude::*;
use vstd::string::*;

use super::file::{clock_text, stamp_text, Files};
use super::loop_exec::{
    lemma_flatten_step, procs_view, reports_view, spawn_for, ticked_orders, watches_view,
    LoopRestart, Report, ReportView, Step, Watch, WatchView,
};
use super::proc::{Order, Proc, ProcView};
use super::names::{
    lemma_autostart_keeps_names, lemma_files_keep_names, lemma_materialized_well_named,
    lemma_merge_keeps_names, lemma_requests_keep_names, lemma_sweep_keeps_names, well_named,
};
use super::task::{count_up, counted, stopped_orders, task_of, Task, TaskView};
use super::yaml::{first_doc, items_from, programs_of, text_to_yaml, Node};
use super::tool::{first_index, lemma_first_index, lemma_first_index_is};
use crate::{progs_view, CallOn, CallOnView, Prog, ProgView, Response, ResponseView};

verus! {

/// Where the configuration lies, and the text that was last loaded from there.
#[derive(Debug)]
pub struct Config {
    pub path: String,
    pub raw: String,
}

impl Config {
    pub fn set(path: &str, raw: String) -> (r: Config)
        ensures
            r.path@ == path@,
            r.raw@ == raw@,
    {
        Self { path: String::from_str(path), raw }
    }

    /// Takes `raw` as the text that is loaded.
    pub fn reload(&mut self, raw: String)
        ensures
            final(self).path@ == old(self).path@,
            final(self).raw@ == raw@,
    {
        self.raw = raw;
    }
}

/// The registry: every program with its slots, the configuration they were
/// made from, and the orders that the caller has not yet taken.
#[derive(Debug)]
pub struct Taskmaster {
    pub ppid: i32,
    pub config: Config,
    pub task_lst: Vec<Task>,
    /// How many slots were made since the registry was set up.
    pub nprocs: i64,
    pub orders: Vec<Order>,
}

/// Mathematical model of a [`Taskmaster`].
pub ghost struct TaskmasterView {
    pub ppid: i32,
    pub path: Seq<char>,
    pub raw: Seq<char>,
    pub tasks: Seq<TaskView>,
    pub nprocs: i64,
    pub orders: Seq<Order>,
}

/// The models of a list of programs.
pub open spec fn tasks_view(tasks: Seq<Task>) -> Seq<TaskView> {
    tasks.map_values(|t: Task| t@)
}

impl View for Taskmaster {
    type V = TaskmasterView;

    open spec fn view(&self) -> TaskmasterView {
        TaskmasterView {
            ppid: self.ppid,
            path: self.config.path@,
            raw: self.config.raw@,
            tasks: tasks_view(self.task_lst@),
            nprocs: self.nprocs,
            orders: self.orders@,
        }
    }
}

/// Every program of the list keeps the invariant of its slots.
pub open spec fn all_tasks_wf(tasks: Seq<TaskView>) -> bool {
    forall|i: int| 0 <= i < tasks.len() ==> (#[trigger] tasks[i]).wf()
}

/// The line that a status report holds for a slot at `now`.
pub open spec fn prog_of(p: ProcView, now: u64) -> ProgView {
    ProgView { proc_name: p.label(), status: p.state, info: p.current_description(now) }
}

/// The status report at `now`: one line for each slot, program by program.
pub open spec fn snapshot(tasks: Seq<TaskView>, now: u64) -> Seq<ProgView> {
    tasks.map_values(|t: TaskView| t.procs.map_values(|p: ProcView| prog_of(p, now))).flatten()
}

/// Whether the slot bears the name `name`.
pub open spec fn named(name: Seq<char>) -> spec_fn(ProcView) -> bool {
    |p: ProcView| p.name == Some(name)
}

/// Whether the program has a slot with the name `name`.
pub open spec fn holds(name: Seq<char>) -> spec_fn(TaskView) -> bool {
    |t: TaskView| first_index(t.procs, named(name)) is Some
}

/// Whether the configuration of the program gives it the name `name`.
pub open spec fn called(name: Option<Seq<char>>) -> spec_fn(TaskView) -> bool {
    |t: TaskView| name is Some && t.file.name == name
}

/// Where the slot with the name `name` is: the number of its program and
/// its own number there. Of several such slots it is the first.
pub open spec fn locate(tasks: Seq<TaskView>, name: Seq<char>) -> Option<(int, int)> {
    match first_index(tasks, holds(name)) {
        Some(i) => Some((i, first_index(tasks[i].procs, named(name))->0)),
        None => None,
    }
}

/// The programs with the slot at `at` replaced by `p`.
pub open spec fn with_proc(tasks: Seq<TaskView>, at: (int, int), p: ProcView) -> Seq<TaskView> {
    tasks.update(at.0, TaskView { procs: tasks[at.0].procs.update(at.1, p), ..tasks[at.0] })
}

/// The programs that a configuration describes, one for each entry, still
/// without slots.
pub open spec fn task_list_of(config: Node) -> Seq<TaskView> {
    programs_of(config).map_values(|doc: Node| task_of(doc))
}

/// Whether one of the programs has the name `name`.
pub open spec fn has_name(tasks: Seq<TaskView>, name: Option<Seq<char>>) -> bool {
    first_index(tasks, called(name)) is Some
}

/// The programs that are set up from a list of configured ones: of those
/// that share a name only the first, and none without a name. Each gets
/// its defaults and its slots.
pub open spec fn materialized(tasks: Seq<TaskView>) -> Seq<TaskView>
    decreases tasks.len(),
{
    if tasks.len() == 0 {
        Seq::empty()
    } else {
        let head = materialized(tasks.drop_last());
        let t = tasks.last();
        if t.file.name is None || has_name(head, t.file.name) {
            head
        } else {
            head.push(t.commanded(t.label()))
        }
    }
}

/// How many slots are made when the programs are set up.
pub open spec fn made(tasks: Seq<TaskView>) -> nat
    decreases tasks.len(),
{
    if tasks.len() == 0 {
        0
    } else {
        let head = materialized(tasks.drop_last());
        let t = tasks.last();
        if t.file.name is None || has_name(head, t.file.name) {
            made(tasks.drop_last())
        } else {
            made(tasks.drop_last()) + (t.commanded(t.label()).procs.len() - t.procs.len()) as nat
        }
    }
}

/// The document behind an optional reference.
pub open spec fn held(doc: Option<&Node>) -> Option<Node> {
    match doc {
        Some(doc) => Some(*doc),
        None => None,
    }
}

/// The registry that is made for the configuration at `path` with the text
/// `raw`, of which `doc` is the first document if it has one: it holds the
/// configured programs, still without slots.
pub open spec fn fresh(path: Seq<char>, raw: Seq<char>, ppid: i32, doc: Option<Node>) -> TaskmasterView {
    TaskmasterView {
        ppid,
        path,
        raw,
        tasks: match doc {
            Some(doc) => task_list_of(doc),
            None => Seq::empty(),
        },
        nprocs: 0,
        orders: Seq::empty(),
    }
}

/// The sum of a list of numbers.
pub open spec fn total(parts: Seq<nat>) -> nat
    decreases parts.len(),
{
    if parts.len() == 0 {
        0
    } else {
        total(parts.drop_last()) + parts.last()
    }
}

/// One more item adds its number to the sum.
pub proof fn lemma_total_step<A>(s: Seq<A>, f: spec_fn(A) -> nat, k: int)
    requires
        0 <= k < s.len(),
    ensures
        total(s.take(k + 1).map_values(f)) == total(s.take(k).map_values(f)) + f(s[k]),
{
    assert(s.take(k + 1).map_values(f).drop_last() =~= s.take(k).map_values(f));
}

/// Counting in two steps is counting the sum in one.
pub proof fn lemma_count_up_twice(n: i64, a: nat, b: nat)
    ensures
        count_up(count_up(n, a), b) == count_up(n, a + b),
{
}

/// What becomes of a program when the configuration `new` is taken up: it
/// takes the configuration that `new` has under its name and gives up the
/// slots it has too many; if `new` does not name it, it is retired.
pub open spec fn reduced(new: Seq<TaskView>, now: u64) -> spec_fn(TaskView) -> TaskView {
    |t: TaskView|
        match first_index(new, called(t.file.name)) {
            Some(j) => t.narrowed(new[j]),
            None => t.retired(now),
        }
}

pub open spec fn reduce_orders(new: Seq<TaskView>, now: u64) -> spec_fn(TaskView) -> Seq<Order> {
    |t: TaskView|
        match first_index(new, called(t.file.name)) {
            Some(j) => t.narrow_orders(new[j], now),
            None => stopped_orders(t.procs),
        }
}

/// What becomes of a program when the programs of `new` are added: it gets
/// the slots that it lacks to have as many as `new` has under its name.
pub open spec fn extended(new: Seq<TaskView>) -> spec_fn(TaskView) -> TaskView {
    |t: TaskView|
        match first_index(new, called(t.file.name)) {
            Some(j) => t.widened(new[j]),
            None => t,
        }
}

/// How many slots a program gets when the programs of `new` are added.
pub open spec fn gain(new: Seq<TaskView>) -> spec_fn(TaskView) -> nat {
    |t: TaskView| (extended(new)(t).procs.len() - t.procs.len()) as nat
}

/// Whether a program of a new configuration is new to the programs `cur`.
pub open spec fn unknown_to(cur: Seq<TaskView>) -> spec_fn(TaskView) -> bool {
    |n: TaskView| !has_name(cur, n.file.name)
}

/// How many slots a program of a new configuration brings to the programs `cur`.
pub open spec fn brought(cur: Seq<TaskView>) -> spec_fn(TaskView) -> nat {
    |n: TaskView|
        if has_name(cur, n.file.name) {
            0
        } else {
            n.procs.len()
        }
}

/// The programs after a tick of the reconciliation loop on each.
pub open spec fn all_ticked(
    tasks: Seq<TaskView>,
    reports: Seq<ReportView>,
    now: u64,
    stamp: Seq<char>,
) -> Seq<TaskView> {
    tasks.map_values(|t: TaskView| t.ticked(reports, now, stamp))
}

pub open spec fn all_ticked_orders(tasks: Seq<TaskView>, reports: Seq<ReportView>, now: u64) -> Seq<
    Order,
> {
    tasks.map_values(|t: TaskView| ticked_orders(t.procs, t.file, reports, now)).flatten()
}

/// The programs after each has started or stopped its slots, as its
/// configuration asks.
pub open spec fn all_autostarted(tasks: Seq<TaskView>, reports: Seq<ReportView>, now: u64) -> Seq<
    TaskView,
> {
    tasks.map_values(|t: TaskView| t.autostarted(reports, now))
}

pub open spec fn all_autostart_orders(tasks: Seq<TaskView>, reports: Seq<ReportView>) -> Seq<Order> {
    tasks.map_values(|t: TaskView| t.autostart_orders(reports)).flatten()
}

/// The programs that stay: those that are finished are dropped.
pub open spec fn unfinished(tasks: Seq<TaskView>) -> Seq<TaskView> {
    tasks.filter(|t: TaskView| !t.finished())
}

impl TaskmasterView {
    /// The registry after one tick of the reconciliation loop: every slot
    /// makes the transition that fits what was seen of it, removed slots go,
    /// and so do the programs that are finished.
    pub open spec fn swept(
        self,
        reports: Seq<ReportView>,
        now: u64,
        stamp: Seq<char>,
    ) -> TaskmasterView {
        TaskmasterView {
            tasks: unfinished(all_ticked(self.tasks, reports, now, stamp)),
            orders: self.orders + all_ticked_orders(self.tasks, reports, now),
            ..self
        }
    }

    /// The registry after every program has started or stopped its slots.
    pub open spec fn autostarted(self, reports: Seq<ReportView>, now: u64) -> TaskmasterView {
        TaskmasterView {
            tasks: all_autostarted(self.tasks, reports, now),
            orders: self.orders + all_autostart_orders(self.tasks, reports),
            ..self
        }
    }

    /// What the next tick has to be told: of each child whether it is
    /// still there, and for each slot that is backing off the outcome of a
    /// new spawn.
    pub open spec fn tick_needs(self) -> Seq<WatchView> {
        self.tasks.map_values(|t: TaskView| t.tick_needs()).flatten()
    }

    /// What `start_all_task` has to be told: the outcome of a spawn for
    /// each slot that it will start.
    pub open spec fn autostart_needs(self) -> Seq<WatchView> {
        self.tasks.map_values(|t: TaskView| t.autostart_needs()).flatten()
    }

    /// What a start or restart request for the slot named `name` has to be
    /// told: the outcome of a spawn, if there is such a slot and it can start.
    pub open spec fn start_needs(self, name: Seq<char>) -> Seq<WatchView> {
        match locate(self.tasks, name) {
            Some(at) => match self.slot(at).start_need(self.tasks[at.0].file.directory) {
                Some(watch) => seq![watch],
                None => Seq::empty(),
            },
            None => Seq::empty(),
        }
    }

    /// The first half of taking up the configuration `new`: every program
    /// that `new` names takes the configuration it has there and gives up
    /// the slots it has too many; every other program is retired.
    pub open spec fn removed(self, new: TaskmasterView, now: u64) -> TaskmasterView {
        TaskmasterView {
            tasks: self.tasks.map_values(reduced(new.tasks, now)),
            orders: self.orders + self.tasks.map_values(reduce_orders(new.tasks, now)).flatten(),
            ..self
        }
    }

    /// The second half: every program that `new` names gets the slots it
    /// lacks, and the programs of `new` that are new are added at the end.
    pub open spec fn added(self, new: TaskmasterView) -> TaskmasterView {
        TaskmasterView {
            tasks: self.tasks.map_values(extended(new.tasks)) + new.tasks.filter(
                unknown_to(self.tasks),
            ),
            nprocs: count_up(
                self.nprocs,
                total(self.tasks.map_values(gain(new.tasks))) + total(
                    new.tasks.map_values(brought(self.tasks)),
                ),
            ),
            ..self
        }
    }

    /// The registry that the text `new_raw` describes, of which `doc` is
    /// the first document, set up apart from this one.
    pub open spec fn described(self, new_raw: Seq<char>, doc: Node) -> TaskmasterView {
        fresh(self.path, new_raw, self.ppid, Some(doc)).commanded()
    }

    /// The registry after the configuration with the text `new_raw` was
    /// taken up, but before any slot was started for it: nothing changes
    /// for the text that is loaded already, nor for one that cannot be
    /// read. The orders that were given while the new configuration was set
    /// up apart are none.
    pub open spec fn merged(self, new_raw: Seq<char>, doc: Option<Node>, now: u64) -> TaskmasterView {
        if new_raw == self.raw {
            self
        } else {
            match doc {
                Some(doc) => (TaskmasterView { raw: new_raw, ..self }).removed(
                    self.described(new_raw, doc),
                    now,
                ).added(self.described(new_raw, doc)),
                None => self,
            }
        }
    }

    /// Whether the text `new_raw` is taken up as a new configuration.
    pub open spec fn takes_up(self, new_raw: Seq<char>, doc: Option<Node>) -> bool {
        new_raw != self.raw && doc is Some
    }

    /// The registry after a reload with the text `new_raw`: the text is
    /// taken up, the slots that have no log files yet get theirs, named
    /// with the time of day `time`, and then every program starts or stops
    /// its slots.
    pub open spec fn reloaded(
        self,
        new_raw: Seq<char>,
        doc: Option<Node>,
        reports: Seq<ReportView>,
        now: u64,
        time: Seq<char>,
    ) -> TaskmasterView {
        if self.takes_up(new_raw, doc) {
            self.merged(new_raw, doc, now).with_files(time).autostarted(reports, now)
        } else {
            self
        }
    }

    pub open spec fn reload_result(self, new_raw: Seq<char>, doc: Option<Node>) -> Result<
        Seq<char>,
        Seq<char>,
    > {
        if new_raw == self.raw {
            Ok("Reload file with success: 0 change"@)
        } else if doc is None {
            Err("Reload failed: the configuration cannot be read"@)
        } else {
            Ok("Reload with success"@)
        }
    }

    /// What a reload with the text `new_raw` has to be told: the outcome
    /// of a spawn for each slot that it will start.
    pub open spec fn reload_needs(
        self,
        new_raw: Seq<char>,
        doc: Option<Node>,
        now: u64,
        time: Seq<char>,
    ) -> Seq<WatchView> {
        if self.takes_up(new_raw, doc) {
            self.merged(new_raw, doc, now).with_files(time).autostart_needs()
        } else {
            Seq::empty()
        }
    }

    /// The registry after every program that is configured with
    /// `autostart` has taken up the children that the reports hold for it.
    pub open spec fn taken_up(self, reports: Seq<ReportView>, now: u64) -> TaskmasterView {
        TaskmasterView {
            tasks: self.tasks.map_values(
                |t: TaskView|
                    if t.file.autostart_or_default() {
                        t.taken_up(reports, now)
                    } else {
                        t
                    },
            ),
            ..self
        }
    }

    /// The registry with a file chosen for each stream of each slot that
    /// has none yet.
    pub open spec fn with_files(self, time: Seq<char>) -> TaskmasterView {
        TaskmasterView { tasks: self.tasks.map_values(|t: TaskView| t.with_files(time)), ..self }
    }

    /// The registry with its programs set up.
    pub open spec fn commanded(self) -> TaskmasterView {
        TaskmasterView {
            tasks: materialized(self.tasks),
            nprocs: count_up(self.nprocs, made(self.tasks)),
            ..self
        }
    }

    /// Every slot is stopped, running or has given up.
    pub open spec fn stable(self) -> bool {
        forall|i: int| 0 <= i < self.tasks.len() ==> (#[trigger] self.tasks[i]).settled()
    }

    /// The invariant of the registry: every slot keeps its own.
    pub open spec fn wf(self) -> bool {
        all_tasks_wf(self.tasks)
    }

    /// Every program has a name of its own, and every slot bears the name
    /// of its program and its number there: no two slots share a name.
    pub open spec fn named(self) -> bool {
        well_named(self.tasks)
    }

    /// No program has a slot yet.
    pub open spec fn bare(self) -> bool {
        forall|i: int| 0 <= i < self.tasks.len() ==> (#[trigger] self.tasks[i]).procs.len() == 0
    }

    /// The slot at `at`.
    pub open spec fn slot(self, at: (int, int)) -> ProcView {
        self.tasks[at.0].procs[at.1]
    }

    /// The registry after a start request for the slot named `name`.
    pub open spec fn started(
        self,
        name: Seq<char>,
        reports: Seq<ReportView>,
        now: u64,
    ) -> TaskmasterView {
        match locate(self.tasks, name) {
            Some(at) => TaskmasterView {
                tasks: with_proc(
                    self.tasks,
                    at,
                    self.slot(at).start(spawn_for(reports, Some(name)), now),
                ),
                orders: self.orders + self.slot(at).start_orders(spawn_for(reports, Some(name))),
                ..self
            },
            None => self,
        }
    }

    pub open spec fn start_result(self, name: Seq<char>, reports: Seq<ReportView>) -> Result<
        Seq<char>,
        Seq<char>,
    > {
        match locate(self.tasks, name) {
            Some(at) => self.slot(at).start_result(spawn_for(reports, Some(name))),
            None => Err("Process not found"@),
        }
    }

    /// The registry after a stop request for the slot named `name`.
    pub open spec fn stopped(self, name: Seq<char>, now: u64) -> TaskmasterView {
        match locate(self.tasks, name) {
            Some(at) => TaskmasterView {
                tasks: with_proc(self.tasks, at, self.slot(at).stop(now)),
                orders: self.orders + self.slot(at).stop_orders(),
                ..self
            },
            None => self,
        }
    }

    pub open spec fn stop_result(self, name: Seq<char>) -> Result<Seq<char>, Seq<char>> {
        match locate(self.tasks, name) {
            Some(at) => self.slot(at).stop_result(),
            None => Err("Process not found"@),
        }
    }

    /// The registry after a restart request for the slot named `name`.
    pub open spec fn restarted(
        self,
        name: Seq<char>,
        reports: Seq<ReportView>,
        now: u64,
    ) -> TaskmasterView {
        match locate(self.tasks, name) {
            Some(at) => TaskmasterView {
                tasks: with_proc(
                    self.tasks,
                    at,
                    self.slot(at).restart(spawn_for(reports, Some(name)), now),
                ),
                orders: self.orders + self.slot(at).restart_orders(
                    spawn_for(reports, Some(name)),
                    now,
                ),
                ..self
            },
            None => self,
        }
    }

    pub open spec fn restart_result(self, name: Seq<char>, reports: Seq<ReportView>, now: u64) -> Result<
        Seq<char>,
        Seq<char>,
    > {
        match locate(self.tasks, name) {
            Some(at) => self.slot(at).restart_result(spawn_for(reports, Some(name)), now),
            None => Err("Process not found"@),
        }
    }
}

/// A list of programs in which one slot was replaced is the list that
/// `with_proc` gives, and keeps the invariant if the new slot does.
pub proof fn lemma_slot_replaced(
    before: Seq<TaskView>,
    after: Seq<TaskView>,
    at: (int, int),
    p: ProcView,
)
    requires
        0 <= at.0 < before.len(),
        0 <= at.1 < before[at.0].procs.len(),
        after.len() == before.len(),
        forall|k: int| 0 <= k < before.len() && k != at.0 ==> after[k] == before[k],
        after[at.0] == (TaskView { procs: after[at.0].procs, ..before[at.0] }),
        after[at.0].procs.len() == before[at.0].procs.len(),
        forall|k: int|
            0 <= k < before[at.0].procs.len() && k != at.1 ==> after[at.0].procs[k]
                == before[at.0].procs[k],
        after[at.0].procs[at.1] == p,
    ensures
        after == with_proc(before, at, p),
        all_tasks_wf(before) && (before[at.0].procs[at.1].wf() ==> p.wf()) ==> all_tasks_wf(after),
{
    assert(after[at.0].procs =~= before[at.0].procs.update(at.1, p));
}

/// The programs that got their missing slots bear the names that they bore.
pub proof fn lemma_same_names(cur: Seq<TaskView>, new: Seq<TaskView>, name: Option<Seq<char>>)
    ensures
        has_name(cur.map_values(extended(new)), name) == has_name(cur, name),
{
    let grown = cur.map_values(extended(new));
    lemma_first_index(cur, called(name));
    lemma_first_index(grown, called(name));
    assert forall|i: int| 0 <= i < cur.len() implies called(name)(#[trigger] grown[i]) == called(
        name,
    )(cur[i]) by {
        lemma_first_index(new, called(cur[i].file.name));
    }
    if first_index(cur, called(name)) is Some {
        let i = first_index(cur, called(name))->0;
        assert(called(name)(grown[i]));
    }
    if first_index(grown, called(name)) is Some {
    }
}

/// The model of the result of a search.
pub open spec fn found_view(r: Result<(usize, usize), String>) -> Result<(int, int), Seq<char>> {
    match r {
        Ok(at) => Ok((at.0 as int, at.1 as int)),
        Err(e) => Err(e@),
    }
}

/// The number of the first slot with the name `name`.
pub fn find_proc(procs: &Vec<Proc>, name: &str) -> (r: Option<usize>)
    ensures
        match r {
            Some(j) => first_index(procs_view(procs@), named(name@)) == Some(j as int) && j
                < procs.len(),
            None => first_index(procs_view(procs@), named(name@)) is None,
        },
{
    let ghost all = procs_view(procs@);
    let mut j: usize = 0;
    while j < procs.len()
        invariant
            j <= procs.len(),
            all == procs_view(procs@),
            forall|k: int| 0 <= k < j ==> !named(name@)(#[trigger] all[k]),
        decreases procs.len() - j,
    {
        let hit = match &procs[j].name {
            Some(n) => super::parse::same_text(n.as_str(), name),
            None => false,
        };
        if hit {
            proof {
                lemma_first_index_is(all, named(name@), j as int);
            }
            return Some(j);
        }
        j = j + 1;
    }
    proof {
        lemma_first_index_is(all, named(name@), all.len() as int);
    }
    None
}

impl Clone for Taskmaster {
    fn clone(&self) -> (r: Self)
        ensures
            r@ == self@,
    {
        let mut task_lst: Vec<Task> = Vec::new();
        let mut i: usize = 0;
        while i < self.task_lst.len()
            invariant
                i <= self.task_lst.len(),
                task_lst.len() == i,
                tasks_view(task_lst@) == tasks_view(self.task_lst@).take(i as int),
            decreases self.task_lst.len() - i,
        {
            let copy = self.task_lst[i].clone();
            task_lst.push(copy);
            i = i + 1;
        }
        assert(tasks_view(self.task_lst@).take(i as int) =~= tasks_view(self.task_lst@));
        Taskmaster {
            ppid: self.ppid,
            config: Config { path: self.config.path.clone(), raw: self.config.raw.clone() },
            task_lst,
            nprocs: self.nprocs,
            orders: self.orders.clone(),
        }
    }
}

impl Files for Taskmaster {
    fn files(&mut self, time: &str)
        ensures
            final(self)@ == old(self)@.with_files(time@),
            old(self)@.wf() ==> final(self)@.wf(),
            old(self)@.named() ==> final(self)@.named(),
    {
        let ghost before = self@.tasks;
        proof {
            if self@.named() {
                lemma_files_keep_names(self@, time@);
            }
        }
        let mut i: usize = 0;
        while i < self.task_lst.len()
            invariant
                i <= self.task_lst.len(),
                self.task_lst.len() == before.len(),
                before == old(self)@.tasks,
                self@ == (TaskmasterView { tasks: self@.tasks, ..old(self)@ }),
                forall|j: int|
                    0 <= j < i ==> (#[trigger] self.task_lst@[j])@ == before[j].with_files(time@),
                forall|j: int|
                    i <= j < before.len() ==> (#[trigger] self.task_lst@[j])@ == before[j],
                all_tasks_wf(before) ==> all_tasks_wf(self@.tasks),
            decreases self.task_lst.len() - i,
        {
            self.task_lst[i].files(time);
            i = i + 1;
        }
        assert(self@.tasks =~= old(self)@.with_files(time@).tasks);
    }
}

impl LoopRestart for Taskmaster {
    /// Every program that is configured with `autostart` takes up the
    /// children that the reports hold for its slots.
    fn start_loop(&mut self, reports: &Vec<Report>, now: u64)
        ensures
            final(self)@ == old(self)@.taken_up(reports_view(reports@), now),
    {
        let ghost before = self@.tasks;
        let ghost seen = reports_view(reports@);
        let mut i: usize = 0;
        while i < self.task_lst.len()
            invariant
                i <= self.task_lst.len(),
                self.task_lst.len() == before.len(),
                before == old(self)@.tasks,
                seen == reports_view(reports@),
                self@ == (TaskmasterView { tasks: self@.tasks, ..old(self)@ }),
                forall|j: int|
                    0 <= j < i ==> (#[trigger] self.task_lst@[j])@
                        == (if before[j].file.autostart_or_default() {
                        before[j].taken_up(seen, now)
                    } else {
                        before[j]
                    }),
                forall|j: int|
                    i <= j < before.len() ==> (#[trigger] self.task_lst@[j])@ == before[j],
            decreases self.task_lst.len() - i,
        {
            if self.task_lst[i].getautostart() {
                self.task_lst[i].start_loop(reports, now);
            }
            i = i + 1;
        }
        assert(self@.tasks =~= old(self)@.taken_up(seen, now).tasks);
    }
}

/// The number of the first program with the name `name` among the first
/// `upto` programs.
pub fn find_task(tasks: &Vec<Task>, upto: usize, name: &Option<String>) -> (r: Option<usize>)
    requires
        upto <= tasks.len(),
    ensures
        match r {
            Some(j) => first_index(tasks_view(tasks@).take(upto as int), called(name.deep_view()))
                == Some(j as int) && j < upto,
            None => first_index(tasks_view(tasks@).take(upto as int), called(name.deep_view()))
                is None,
        },
{
    let ghost all = tasks_view(tasks@).take(upto as int);
    let ghost wanted = name.deep_view();
    let text = match name {
        Some(text) => text,
        None => {
            proof {
                lemma_first_index(all, called(wanted));
            }
            return None;
        },
    };
    let mut j: usize = 0;
    while j < upto
        invariant
            j <= upto <= tasks.len(),
            all == tasks_view(tasks@).take(upto as int),
            wanted == name.deep_view(),
            wanted == Some(text@),
            forall|k: int| 0 <= k < j ==> !called(wanted)(#[trigger] all[k]),
        decreases upto - j,
    {
        let hit = match &tasks[j].parse_file.name {
            Some(n) => *n == *text,
            None => false,
        };
        if hit {
            proof {
                lemma_first_index_is(all, called(wanted), j as int);
            }
            return Some(j);
        }
        j = j + 1;
    }
    proof {
        lemma_first_index_is(all, called(wanted), all.len() as int);
    }
    None
}

impl Taskmaster {
    /// The registry for the configuration at `path`, whose text is `raw`:
    /// the text is parsed, and the programs it describes are taken up,
    /// still without slots. A text that cannot be read describes none.
    pub fn new(path: &str, raw: String, ppid: i32) -> (r: Self)
        ensures
            r@ == fresh(path@, raw@, ppid, first_doc(raw@)),
            r@.wf(),
            r@.bare(),
    {
        let doc = text_to_yaml(raw.as_str());
        let seen = doc.as_ref();
        Self::from_doc(path, raw, ppid, seen)
    }

    /// The registry for the configuration at `path` with the text `raw`,
    /// of which `doc` is the first document, if it has one.
    pub fn from_doc(path: &str, raw: String, ppid: i32, doc: Option<&Node>) -> (r: Self)
        ensures
            r@ == fresh(path@, raw@, ppid, held(doc)),
            r@.wf(),
            r@.bare(),
    {
        let task_lst = match doc {
            Some(doc) => Self::set_task_lst(doc),
            None => Vec::new(),
        };
        let r = Taskmaster {
            ppid,
            config: Config::set(path, raw),
            task_lst,
            nprocs: 0,
            orders: Vec::new(),
        };
        proof {
            if doc is None {
                assert(r@.tasks =~= Seq::<TaskView>::empty());
            }
        }
        r
    }

    pub fn update_config(&mut self, raw: String)
        ensures
            final(self)@ == (TaskmasterView { raw: raw@, ..old(self)@ }),
    {
        self.config.reload(raw);
    }

    /// The programs that the configuration `config` describes.
    pub fn set_task_lst(config: &Node) -> (r: Vec<Task>)
        ensures
            tasks_view(r@) == task_list_of(*config),
            all_tasks_wf(tasks_view(r@)),
    {
        Self::init_task_lst(config)
    }

    pub fn init_task_lst(config: &Node) -> (r: Vec<Task>)
        ensures
            tasks_view(r@) == task_list_of(*config),
            all_tasks_wf(tasks_view(r@)),
    {
        let mut vec_task: Vec<Task> = Vec::new();
        let list = match config.get("programs") {
            Some(list) => list,
            None => {
                return vec_task;
            },
        };
        let count = list.len();
        let mut i: usize = 0;
        let ghost of = |doc: Node| task_of(doc);
        let mut done = false;
        while i < count && !done
            invariant
                i <= count,
                count == list.size(),
                *list == config.field("programs"@),
                of == |doc: Node| task_of(doc),
                tasks_view(vec_task@) + items_from(*list, i as nat).map_values(of) == task_list_of(
                    *config,
                ),
                all_tasks_wf(tasks_view(vec_task@)),
                done ==> items_from(*list, i as nat) == Seq::<Node>::empty(),
            decreases count - i, (if done { 0int } else { 1int }),
        {
            let ghost built = tasks_view(vec_task@);
            let item = match list.at(i) {
                Some(item) => item,
                None => {
                    done = true;
                    continue ;
                },
            };
            if item.is_badvalue() {
                done = true;
                continue ;
            }
            let task = Task::prepared(item);
            vec_task.push(task);
            proof {
                assert(tasks_view(vec_task@) =~= built.push(task@));
            }
            i = i + 1;
        }
        vec_task
    }

    /// Sets the programs up: each gets its defaults and its slots. Of the
    /// programs that share a name only the first is kept, and none without
    /// a name.
    pub fn set_all_command(&mut self)
        ensures
            final(self)@ == old(self)@.commanded(),
            old(self)@.wf() ==> final(self)@.wf(),
            old(self)@.bare() ==> final(self)@.named(),
    {
        let ghost before = self@.tasks;
        proof {
            if self@.bare() {
                lemma_materialized_well_named(before);
            }
        }
        let mut listed: Vec<Task> = Vec::new();
        std::mem::swap(&mut listed, &mut self.task_lst);
        let ghost start = self.nprocs;
        assert(tasks_view(self.task_lst@) =~= materialized(before.take(0)));
        assert(before.skip(0) =~= before);
        let ghost mut k: int = 0;
        while listed.len() > 0
            invariant
                0 <= k <= before.len(),
                before == old(self)@.tasks,
                start == old(self).nprocs,
                tasks_view(listed@) == before.skip(k),
                listed.len() == before.len() - k,
                self@ == (TaskmasterView {
                    tasks: materialized(before.take(k)),
                    nprocs: count_up(start, made(before.take(k))),
                    ..old(self)@
                }),
                all_tasks_wf(before) ==> all_tasks_wf(self@.tasks),
            decreases listed.len(),
        {
            let ghost kept = self@.tasks;
            let ghost rest = tasks_view(listed@);
            let ghost queue = listed@;
            let mut task = listed.remove(0);
            proof {
                assert(rest[0] == queue[0]@);
                assert(tasks_view(listed@) =~= rest.skip(1));
                assert(before.take(k + 1).drop_last() =~= before.take(k));
            }
            let known = self.task_lst.len();
            assert(tasks_view(self.task_lst@).take(known as int) =~= tasks_view(self.task_lst@));
            let seen = match &task.parse_file.name {
                Some(_) => find_task(&self.task_lst, known, &task.parse_file.name).is_some(),
                None => true,
            };
            if !seen {
                let name: String = task.getnameparse();
                let had = task.process_lst.len();
                let ghost plain = task@;
                let _ = task.set_command(name);
                let now_has = task.process_lst.len();
                assert(task@.procs.len() >= plain.procs.len());
                self.nprocs = counted(self.nprocs, now_has - had);
                self.task_lst.push(task);
                proof {
                    assert(tasks_view(self.task_lst@) =~= kept.push(task@));
                }
            }
            proof {
                k = k + 1;
            }
        }
    }

    /// The first half of taking up the configuration `new`.
    pub fn remove_tasks(&mut self, new: &Taskmaster, now: u64)
        ensures
            final(self)@ == old(self)@.removed(new@, now),
            old(self)@.wf() ==> final(self)@.wf(),
    {
        let ghost before = self@.tasks;
        let ghost fresh_ones = new@.tasks;
        let ghost part = reduce_orders(fresh_ones, now);
        let mut i: usize = 0;
        while i < self.task_lst.len()
            invariant
                i <= self.task_lst.len(),
                self.task_lst.len() == before.len(),
                before == old(self)@.tasks,
                fresh_ones == new@.tasks,
                part == reduce_orders(fresh_ones, now),
                self@ == (TaskmasterView { tasks: self@.tasks, orders: self@.orders, ..old(self)@ }),
                forall|j: int|
                    0 <= j < i ==> (#[trigger] self.task_lst@[j])@ == reduced(fresh_ones, now)(
                        before[j],
                    ),
                forall|j: int|
                    i <= j < before.len() ==> (#[trigger] self.task_lst@[j])@ == before[j],
                all_tasks_wf(before) ==> all_tasks_wf(self@.tasks),
                self.orders@ == old(self).orders@ + before.take(i as int).map_values(
                    part,
                ).flatten(),
            decreases self.task_lst.len() - i,
        {
            let known = new.task_lst.len();
            assert(tasks_view(new.task_lst@).take(known as int) =~= fresh_ones);
            match find_task(&new.task_lst, known, &self.task_lst[i].parse_file.name) {
                Some(j) => {
                    self.task_lst[i].narrow(&new.task_lst[j], now, &mut self.orders);
                },
                None => {
                    self.task_lst[i].remove_all_process(now, &mut self.orders);
                },
            }
            proof {
                lemma_flatten_step(before, part, i as int);
            }
            i = i + 1;
        }
        proof {
            assert(before.take(before.len() as int) =~= before);
            assert(self@.tasks =~= before.map_values(reduced(fresh_ones, now)));
        }
    }

    /// The second half of taking up the configuration `new`.
    pub fn add_tasks(&mut self, new: Taskmaster)
        ensures
            final(self)@ == old(self)@.added(new@),
            old(self)@.wf() && new@.wf() ==> final(self)@.wf(),
    {
        let ghost before = self@.tasks;
        let ghost fresh_ones = new@.tasks;
        let ghost start = self.nprocs;
        let ghost won = gain(fresh_ones);
        let known = new.task_lst.len();
        let mut i: usize = 0;
        while i < self.task_lst.len()
            invariant
                i <= self.task_lst.len(),
                self.task_lst.len() == before.len(),
                before == old(self)@.tasks,
                fresh_ones == new@.tasks,
                known == new.task_lst.len(),
                tasks_view(new.task_lst@).take(known as int) == fresh_ones,
                start == old(self).nprocs,
                won == gain(fresh_ones),
                self@ == (TaskmasterView { tasks: self@.tasks, nprocs: self@.nprocs, ..old(self)@ }),
                forall|j: int|
                    0 <= j < i ==> (#[trigger] self.task_lst@[j])@ == extended(fresh_ones)(
                        before[j],
                    ),
                forall|j: int|
                    i <= j < before.len() ==> (#[trigger] self.task_lst@[j])@ == before[j],
                all_tasks_wf(before) ==> all_tasks_wf(self@.tasks),
                self.nprocs == count_up(start, total(before.take(i as int).map_values(won))),
            decreases self.task_lst.len() - i,
        {
            let had = self.task_lst[i].process_lst.len();
            match find_task(&new.task_lst, known, &self.task_lst[i].parse_file.name) {
                Some(j) => {
                    self.task_lst[i].widen(&new.task_lst[j]);
                },
                None => {},
            }
            let now_has = self.task_lst[i].process_lst.len();
            proof {
                lemma_total_step(before, won, i as int);
                lemma_count_up_twice(
                    start,
                    total(before.take(i as int).map_values(won)),
                    won(before[i as int]),
                );
            }
            self.nprocs = counted(self.nprocs, now_has - had);
            i = i + 1;
        }
        let ghost grown = self@.tasks;
        let ghost mid = self.nprocs;
        let ghost fits = unknown_to(before);
        let ghost brings = brought(before);
        let cur_len = self.task_lst.len();
        let mut queue = new.task_lst;
        let ghost mut k: int = 0;
        proof {
            reveal_with_fuel(Seq::filter, 2);
            assert(before.take(before.len() as int) =~= before);
        }
        while queue.len() > 0
            invariant
                0 <= k <= fresh_ones.len(),
                before == old(self)@.tasks,
                fresh_ones == new@.tasks,
                grown == before.map_values(extended(fresh_ones)),
                fits == unknown_to(before),
                brings == brought(before),
                cur_len == before.len(),
                cur_len <= self.task_lst.len(),
                tasks_view(queue@) == fresh_ones.skip(k),
                queue.len() == fresh_ones.len() - k,
                self@ == (TaskmasterView { tasks: self@.tasks, nprocs: self@.nprocs, ..old(self)@ }),
                self@.tasks == grown + fresh_ones.take(k).filter(fits),
                self.nprocs == count_up(mid, total(fresh_ones.take(k).map_values(brings))),
                all_tasks_wf(before) && all_tasks_wf(fresh_ones) ==> all_tasks_wf(self@.tasks),
            decreases queue.len(),
        {
            let ghost held = self@.tasks;
            let ghost rest = tasks_view(queue@);
            let ghost line = queue@;
            let task = queue.remove(0);
            proof {
                reveal_with_fuel(Seq::filter, 2);
                assert(rest[0] == line[0]@);
                assert(tasks_view(queue@) =~= rest.skip(1));
                assert(fresh_ones.take(k + 1).drop_last() =~= fresh_ones.take(k));
                lemma_total_step(fresh_ones, brings, k);
                lemma_count_up_twice(
                    mid,
                    total(fresh_ones.take(k).map_values(brings)),
                    brings(fresh_ones[k]),
                );
                assert(tasks_view(self.task_lst@).take(cur_len as int) =~= grown);
                lemma_same_names(before, fresh_ones, task@.file.name);
            }
            if find_task(&self.task_lst, cur_len, &task.parse_file.name).is_none() {
                self.nprocs = counted(self.nprocs, task.process_lst.len());
                self.task_lst.push(task);
                proof {
                    assert(self@.tasks =~= held.push(task@));
                }
            }
            proof {
                k = k + 1;
            }
        }
        proof {
            lemma_count_up_twice(
                start,
                total(before.map_values(won)),
                total(fresh_ones.map_values(brings)),
            );
        }
    }

    /// Takes up the configuration with the text `new_raw`, of which `doc`
    /// is the first document, if it could be read; no slot is started yet.
    /// Returns whether the text was taken up.
    pub fn merge(&mut self, new_raw: String, doc: Option<&Node>, now: u64) -> (r: bool)
        ensures
            final(self)@ == old(self)@.merged(new_raw@, held(doc), now),
            r == old(self)@.takes_up(new_raw@, held(doc)),
            old(self)@.wf() ==> final(self)@.wf(),
            old(self)@.named() ==> final(self)@.named(),
    {
        proof {
            if self@.named() {
                lemma_merge_keeps_names(self@, new_raw@, held(doc), now);
            }
        }
        if new_raw == self.config.raw {
            return false;
        }
        match doc {
            Some(doc) => {
                let mut new = Taskmaster::from_doc(
                    self.config.path.as_str(),
                    new_raw.clone(),
                    self.ppid,
                    Some(doc),
                );
                new.set_all_command();
                self.update_config(new_raw);
                self.remove_tasks(&new, now);
                self.add_tasks(new);
                true
            },
            None => false,
        }
    }

    /// Takes a reload request with the text `new_raw` of the configuration,
    /// of which `doc` is the first document, if it could be read. Where the
    /// text is taken up, the caller spawns the children beforehand (see
    /// `reload_needs_from`) and reports them. `time` is the time of day
    /// that goes into the names of new log files.
    pub fn reload_from(
        &mut self,
        new_raw: String,
        doc: Option<&Node>,
        reports: &Vec<Report>,
        now: u64,
        time: &str,
    ) -> (r: Response)
        ensures
            final(self)@ == old(self)@.reloaded(
                new_raw@,
                held(doc),
                reports_view(reports@),
                now,
                time@,
            ),
            r@ == (ResponseView {
                cmd: CallOnView::Reload,
                success: old(self)@.reload_result(new_raw@, held(doc)),
                content: snapshot(final(self)@.tasks, now),
            }),
            old(self)@.wf() ==> final(self)@.wf(),
            old(self)@.named() ==> final(self)@.named(),
    {
        let same = new_raw == self.config.raw;
        let res: Result<String, String> = if same {
            Ok(String::from_str("Reload file with success: 0 change"))
        } else if doc.is_none() {
            Err(String::from_str("Reload failed: the configuration cannot be read"))
        } else {
            Ok(String::from_str("Reload with success"))
        };
        if self.merge(new_raw, doc, now) {
            self.files(time);
            self.start_all_task(reports, now);
        }
        Response { cmd: CallOn::Reload, content: self.get_proc_list(now), success: res }
    }

    /// Takes a reload request with the text `new_raw` of the
    /// configuration: the text is parsed, and the rest is `reload_from`.
    pub fn reload(
        &mut self,
        new_raw: String,
        reports: &Vec<Report>,
        now: u64,
        time: &str,
    ) -> (r: Response)
        ensures
            final(self)@ == old(self)@.reloaded(
                new_raw@,
                first_doc(new_raw@),
                reports_view(reports@),
                now,
                time@,
            ),
            r@ == (ResponseView {
                cmd: CallOnView::Reload,
                success: old(self)@.reload_result(new_raw@, first_doc(new_raw@)),
                content: snapshot(final(self)@.tasks, now),
            }),
            old(self)@.wf() ==> final(self)@.wf(),
            old(self)@.named() ==> final(self)@.named(),
    {
        let doc = text_to_yaml(new_raw.as_str());
        let seen = doc.as_ref();
        self.reload_from(new_raw, seen, reports, now, time)
    }

    /// What `reload_from` has to be told.
    pub fn reload_needs_from(
        &self,
        new_raw: &String,
        doc: Option<&Node>,
        now: u64,
        time: &str,
    ) -> (r: Vec<Watch>)
        ensures
            watches_view(r@) == self@.reload_needs(new_raw@, held(doc), now, time@),
    {
        let mut probe = self.clone();
        if probe.merge(new_raw.clone(), doc, now) {
            probe.files(time);
            probe.get_autostart_needs()
        } else {
            let watches: Vec<Watch> = Vec::new();
            watches
        }
    }

    /// What `reload` has to be told.
    pub fn reload_needs(&self, new_raw: &String, now: u64, time: &str) -> (r: Vec<Watch>)
        ensures
            watches_view(r@) == self@.reload_needs(new_raw@, first_doc(new_raw@), now, time@),
    {
        let doc = text_to_yaml(new_raw.as_str());
        let seen = doc.as_ref();
        self.reload_needs_from(new_raw, seen, now, time)
    }

    /// Takes a start request for the slot named `name`. Where that slot is
    /// `startable`, the caller spawns its child beforehand and reports it,
    /// or reports that none could be spawned.
    pub fn start(&mut self, name: String, reports: &Vec<Report>, now: u64) -> (r: Response)
        ensures
            final(self)@ == old(self)@.started(name@, reports_view(reports@), now),
            r@ == (ResponseView {
                cmd: CallOnView::Start(name@),
                success: old(self)@.start_result(name@, reports_view(reports@)),
                content: snapshot(final(self)@.tasks, now),
            }),
            old(self)@.wf() ==> final(self)@.wf(),
            old(self)@.named() ==> final(self)@.named(),
    {
        proof {
            if self@.named() {
                lemma_requests_keep_names(self@, name@, reports_view(reports@), now);
            }
        }
        let res = match self.get_proc_by_name(name.clone()) {
            Ok((i, j)) => {
                let spawned = super::loop_exec::find_spawn(reports, &Some(name.clone()));
                let ghost tasks = self@.tasks;
                let res = self.task_lst[i].process_lst[j].start(spawned, now, &mut self.orders);
                proof {
                    lemma_slot_replaced(
                        tasks,
                        self@.tasks,
                        (i as int, j as int),
                        tasks[i as int].procs[j as int].start(spawned, now),
                    );
                }
                res
            },
            Err(e) => Err(e),
        };
        Response { cmd: CallOn::Start(name), content: self.get_proc_list(now), success: res }
    }

    /// The state of every process at `now`; nothing changes.
    pub fn status(&self, now: u64) -> (r: Response)
        ensures
            r@ == (ResponseView {
                cmd: CallOnView::Status,
                success: Ok(Seq::empty()),
                content: snapshot(self@.tasks, now),
            }),
    {
        Response {
            cmd: CallOn::Status,
            content: self.get_proc_list(now),
            success: Ok(String::new()),
        }
    }

    /// Takes a stop request for the slot named `name`: the caller is
    /// ordered to signal the child.
    pub fn stop(&mut self, name: String, now: u64) -> (r: Response)
        ensures
            final(self)@ == old(self)@.stopped(name@, now),
            r@ == (ResponseView {
                cmd: CallOnView::Stop(name@),
                success: old(self)@.stop_result(name@),
                content: snapshot(final(self)@.tasks, now),
            }),
            old(self)@.wf() ==> final(self)@.wf(),
            old(self)@.named() ==> final(self)@.named(),
    {
        proof {
            if self@.named() {
                lemma_requests_keep_names(self@, name@, Seq::empty(), now);
            }
        }
        let res = match self.get_proc_by_name(name.clone()) {
            Ok((i, j)) => {
                let ghost tasks = self@.tasks;
                let res = self.task_lst[i].process_lst[j].stop(now, &mut self.orders);
                proof {
                    lemma_slot_replaced(
                        tasks,
                        self@.tasks,
                        (i as int, j as int),
                        tasks[i as int].procs[j as int].stop(now),
                    );
                }
                res
            },
            Err(e) => Err(e),
        };
        Response { cmd: CallOn::Stop(name), content: self.get_proc_list(now), success: res }
    }

    /// Takes a restart request for the slot named `name`: a stop request
    /// followed by a start request.
    pub fn restart(&mut self, name: String, reports: &Vec<Report>, now: u64) -> (r: Response)
        ensures
            final(self)@ == old(self)@.restarted(name@, reports_view(reports@), now),
            r@ == (ResponseView {
                cmd: CallOnView::Restart(name@),
                success: old(self)@.restart_result(name@, reports_view(reports@), now),
                content: snapshot(final(self)@.tasks, now),
            }),
            old(self)@.wf() ==> final(self)@.wf(),
            old(self)@.named() ==> final(self)@.named(),
    {
        proof {
            if self@.named() {
                lemma_requests_keep_names(self@, name@, reports_view(reports@), now);
            }
        }
        let res = match self.get_proc_by_name(name.clone()) {
            Ok((i, j)) => {
                let spawned = super::loop_exec::find_spawn(reports, &Some(name.clone()));
                let ghost tasks = self@.tasks;
                let res = self.task_lst[i].process_lst[j].restart(spawned, now, &mut self.orders);
                proof {
                    lemma_slot_replaced(
                        tasks,
                        self@.tasks,
                        (i as int, j as int),
                        tasks[i as int].procs[j as int].restart(spawned, now),
                    );
                }
                res
            },
            Err(e) => Err(e),
        };
        Response { cmd: CallOn::Restart(name), success: res, content: self.get_proc_list(now) }
    }

    /// Starts the slots of every program that is configured with
    /// `autostart`, and stops those of the others. The caller spawns the
    /// children beforehand (see `autostart_needs`) and reports them.
    pub fn start_all_task(&mut self, reports: &Vec<Report>, now: u64)
        ensures
            final(self)@ == old(self)@.autostarted(reports_view(reports@), now),
            old(self)@.wf() ==> final(self)@.wf(),
            old(self)@.named() ==> final(self)@.named(),
    {
        proof {
            if self@.named() {
                lemma_autostart_keeps_names(self@, reports_view(reports@), now);
            }
        }
        let ghost before = self@.tasks;
        let ghost seen = reports_view(reports@);
        let ghost part = |t: TaskView| t.autostart_orders(seen);
        let mut i: usize = 0;
        while i < self.task_lst.len()
            invariant
                i <= self.task_lst.len(),
                self.task_lst.len() == before.len(),
                before == old(self)@.tasks,
                seen == reports_view(reports@),
                part == |t: TaskView| t.autostart_orders(seen),
                self@ == (TaskmasterView { tasks: self@.tasks, orders: self@.orders, ..old(self)@ }),
                forall|j: int|
                    0 <= j < i ==> (#[trigger] self.task_lst@[j])@ == before[j].autostarted(
                        seen,
                        now,
                    ),
                forall|j: int|
                    i <= j < before.len() ==> (#[trigger] self.task_lst@[j])@ == before[j],
                all_tasks_wf(before) ==> all_tasks_wf(self@.tasks),
                self.orders@ == old(self).orders@ + before.take(i as int).map_values(
                    part,
                ).flatten(),
            decreases self.task_lst.len() - i,
        {
            self.task_lst[i].autostart_all(reports, now, &mut self.orders);
            proof {
                lemma_flatten_step(before, part, i as int);
            }
            i = i + 1;
        }
        proof {
            assert(before.take(before.len() as int) =~= before);
            assert(self@.tasks =~= all_autostarted(before, seen, now));
        }
    }

    /// The transitions that a tick with these reports makes, program by
    /// program and slot by slot.
    pub fn update_all_task_method(&self, reports: &Vec<Report>, now: u64) -> (r: Vec<Vec<Step>>)
        ensures
            r@.map_values(|steps: Vec<Step>| steps@) == self@.tasks.map_values(
                |t: TaskView| t.steps(reports_view(reports@), now),
            ),
    {
        let ghost tasks = self@.tasks;
        let ghost seen = reports_view(reports@);
        let ghost all = tasks.map_values(|t: TaskView| t.steps(seen, now));
        let mut steps: Vec<Vec<Step>> = Vec::new();
        let mut i: usize = 0;
        while i < self.task_lst.len()
            invariant
                i <= self.task_lst.len(),
                tasks == self@.tasks,
                seen == reports_view(reports@),
                all == tasks.map_values(|t: TaskView| t.steps(seen, now)),
                steps.len() == i,
                forall|j: int| 0 <= j < i ==> (#[trigger] steps@[j])@ == all[j],
            decreases self.task_lst.len() - i,
        {
            steps.push(self.task_lst[i].update_methods(reports, now));
            i = i + 1;
        }
        steps
    }

    /// One tick of the reconciliation loop on every program.
    pub fn all_exec_loop(&mut self, reports: &Vec<Report>, now: u64, stamp: &str)
        ensures
            final(self)@ == (TaskmasterView {
                tasks: all_ticked(old(self)@.tasks, reports_view(reports@), now, stamp@),
                orders: old(self)@.orders + all_ticked_orders(
                    old(self)@.tasks,
                    reports_view(reports@),
                    now,
                ),
                ..old(self)@
            }),
            old(self)@.wf() ==> final(self)@.wf(),
    {
        let ghost before = self@.tasks;
        let ghost seen = reports_view(reports@);
        let ghost part = |t: TaskView| ticked_orders(t.procs, t.file, seen, now);
        let mut i: usize = 0;
        while i < self.task_lst.len()
            invariant
                i <= self.task_lst.len(),
                self.task_lst.len() == before.len(),
                before == old(self)@.tasks,
                seen == reports_view(reports@),
                part == |t: TaskView| ticked_orders(t.procs, t.file, seen, now),
                self@ == (TaskmasterView { tasks: self@.tasks, orders: self@.orders, ..old(self)@ }),
                forall|j: int|
                    0 <= j < i ==> (#[trigger] self.task_lst@[j])@ == before[j].ticked(
                        seen,
                        now,
                        stamp@,
                    ),
                forall|j: int|
                    i <= j < before.len() ==> (#[trigger] self.task_lst@[j])@ == before[j],
                all_tasks_wf(before) ==> all_tasks_wf(self@.tasks),
                self.orders@ == old(self).orders@ + before.take(i as int).map_values(
                    part,
                ).flatten(),
            decreases self.task_lst.len() - i,
        {
            let ghost held = self@.tasks;
            self.task_lst[i].call_exec_loop(reports, now, stamp, &mut self.orders);
            proof {
                lemma_flatten_step(before, part, i as int);
                if all_tasks_wf(before) {
                    assert forall|j: int| 0 <= j < self@.tasks.len() implies (
                    #[trigger] self@.tasks[j]).wf() by {
                        assert(held[j].wf());
                    }
                }
            }
            i = i + 1;
        }
        proof {
            assert(before.take(before.len() as int) =~= before);
            assert(self@.tasks =~= all_ticked(before, seen, now, stamp@));
        }
    }

    /// Drops the programs that are finished.
    pub fn drop_finished(&mut self)
        ensures
            final(self)@ == (TaskmasterView {
                tasks: unfinished(old(self)@.tasks),
                ..old(self)@
            }),
            old(self)@.wf() ==> final(self)@.wf(),
    {
        let ghost before = self@.tasks;
        let ghost keep = |t: TaskView| !t.finished();
        let mut i: usize = self.task_lst.len();
        proof {
            reveal_with_fuel(Seq::filter, 2);
            assert(before.take(before.len() as int) =~= before);
        }
        while i > 0
            invariant
                i <= before.len(),
                i <= self.task_lst.len(),
                before == old(self)@.tasks,
                keep == |t: TaskView| !t.finished(),
                self@ == (TaskmasterView { tasks: self@.tasks, ..old(self)@ }),
                self@.tasks == before.take(i as int) + before.skip(i as int).filter(keep),
            decreases i,
        {
            i = i - 1;
            let ghost held = self@.tasks;
            proof {
                reveal_with_fuel(Seq::filter, 2);
                assert(before.skip(i as int) =~= seq![before[i as int]] + before.skip(i + 1));
                Seq::filter_distributes_over_add(
                    seq![before[i as int]],
                    before.skip(i + 1),
                    keep,
                );
                assert(held[i as int] == before[i as int]);
            }
            if self.task_lst[i].is_finished() {
                let _ = self.task_lst.remove(i);
                assert(self@.tasks =~= held.remove(i as int));
            }
        }
        proof {
            if all_tasks_wf(before) {
                assert forall|j: int| 0 <= j < self@.tasks.len() implies (
                #[trigger] self@.tasks[j]).wf() by {
                    before.lemma_filter_contains_rev(keep, self@.tasks[j]);
                }
            }
        }
    }

    /// One tick of the reconciliation loop: `reports` holds what the caller
    /// saw of the children since the last tick (see `tick_needs`), `now` is
    /// the clock and `stamp` the date that exits are reported with.
    pub fn update_and_exec(&mut self, reports: &Vec<Report>, now: u64, stamp: &str)
        ensures
            final(self)@ == old(self)@.swept(reports_view(reports@), now, stamp@),
            old(self)@.wf() ==> final(self)@.wf(),
            old(self)@.named() ==> final(self)@.named(),
    {
        proof {
            if self@.named() {
                lemma_sweep_keeps_names(self@, reports_view(reports@), now, stamp@);
            }
        }
        self.all_exec_loop(reports, now, stamp);
        self.drop_finished();
    }

    /// One tick of the reconciliation loop at the present date: exits are
    /// reported with the local time of the call.
    pub fn process_handler(&mut self, reports: &Vec<Report>, now: u64)
        ensures
            exists|stamp: Seq<char>|
                final(self)@ == old(self)@.swept(reports_view(reports@), now, stamp),
            old(self)@.wf() ==> final(self)@.wf(),
            old(self)@.named() ==> final(self)@.named(),
    {
        let stamp = stamp_text();
        self.update_and_exec(reports, now, stamp.as_str());
    }

    /// Chooses the log files of every slot that has none yet; the local
    /// time of the call goes into their names.
    pub fn create_files(&mut self)
        ensures
            exists|time: Seq<char>| final(self)@ == old(self)@.with_files(time),
            old(self)@.wf() ==> final(self)@.wf(),
            old(self)@.named() ==> final(self)@.named(),
    {
        let time = clock_text();
        self.files(time.as_str());
    }

    /// Whether every slot is stopped, running or has given up.
    pub fn all_task_stable(&self) -> (all_bool: bool)
        ensures
            all_bool == self@.stable(),
    {
        let mut i: usize = 0;
        while i < self.task_lst.len()
            invariant
                i <= self.task_lst.len(),
                forall|j: int| 0 <= j < i ==> (#[trigger] self@.tasks[j]).settled(),
            decreases self.task_lst.len() - i,
        {
            assert(self@.tasks[i as int] == self.task_lst@[i as int]@);
            if !self.task_lst[i].is_stable() {
                return false;
            }
            i = i + 1;
        }
        true
    }

    /// What the next tick has to be told.
    pub fn get_tick_needs(&self) -> (r: Vec<Watch>)
        ensures
            watches_view(r@) == self@.tick_needs(),
    {
        let ghost tasks = self@.tasks;
        let ghost part = |t: TaskView| t.tick_needs();
        let mut watches: Vec<Watch> = Vec::new();
        let mut i: usize = 0;
        while i < self.task_lst.len()
            invariant
                i <= self.task_lst.len(),
                tasks == self@.tasks,
                part == |t: TaskView| t.tick_needs(),
                watches_view(watches@) == tasks.take(i as int).map_values(part).flatten(),
            decreases self.task_lst.len() - i,
        {
            self.task_lst[i].get_tick_needs(&mut watches);
            proof {
                lemma_flatten_step(tasks, part, i as int);
            }
            i = i + 1;
        }
        assert(tasks.take(i as int) =~= tasks);
        watches
    }

    /// What `start_all_task` has to be told.
    pub fn get_autostart_needs(&self) -> (r: Vec<Watch>)
        ensures
            watches_view(r@) == self@.autostart_needs(),
    {
        let ghost tasks = self@.tasks;
        let ghost part = |t: TaskView| t.autostart_needs();
        let mut watches: Vec<Watch> = Vec::new();
        let mut i: usize = 0;
        while i < self.task_lst.len()
            invariant
                i <= self.task_lst.len(),
                tasks == self@.tasks,
                part == |t: TaskView| t.autostart_needs(),
                watches_view(watches@) == tasks.take(i as int).map_values(part).flatten(),
            decreases self.task_lst.len() - i,
        {
            self.task_lst[i].get_autostart_needs(&mut watches);
            proof {
                lemma_flatten_step(tasks, part, i as int);
            }
            i = i + 1;
        }
        assert(tasks.take(i as int) =~= tasks);
        watches
    }

    /// What a start or restart request for the slot named `name` has to be told.
    pub fn get_start_needs(&self, name: &String) -> (r: Vec<Watch>)
        ensures
            watches_view(r@) == self@.start_needs(name@),
    {
        let mut watches: Vec<Watch> = Vec::new();
        match self.get_proc_by_name(name.clone()) {
            Ok((i, j)) => {
                match self.task_lst[i].process_lst[j].get_start_need(
                    &self.task_lst[i].parse_file.directory,
                ) {
                    Some(watch) => {
                        watches.push(watch);
                    },
                    None => {
                    },
                }
            },
            Err(_) => {
            },
        }
        watches
    }

    /// The number of the program with the name `to_be_found`.
    pub fn get_task_by_name(&self, to_be_found: &Option<String>) -> (r: Result<usize, String>)
        ensures
            match r {
                Ok(i) => first_index(self@.tasks, called(to_be_found.deep_view())) == Some(
                    i as int,
                ) && i < self.task_lst.len(),
                Err(e) => first_index(self@.tasks, called(to_be_found.deep_view())) is None && e@
                    == (if to_be_found is None {
                    "Task has no name"@
                } else {
                    "Task not found"@
                }),
            },
    {
        let known = self.task_lst.len();
        assert(tasks_view(self.task_lst@).take(known as int) =~= tasks_view(self.task_lst@));
        match find_task(&self.task_lst, known, to_be_found) {
            Some(i) => Ok(i),
            None => if to_be_found.is_none() {
                Err(String::from_str("Task has no name"))
            } else {
                Err(String::from_str("Task not found"))
            },
        }
    }

    /// Whether one of the programs has the name `to_find`.
    pub fn name_exist(&self, to_find: String) -> (r: bool)
        ensures
            r == has_name(self@.tasks, Some(to_find@)),
    {
        let known = self.task_lst.len();
        assert(tasks_view(self.task_lst@).take(known as int) =~= tasks_view(self.task_lst@));
        find_task(&self.task_lst, known, &Some(to_find)).is_some()
    }

    /// Hands the orders given since the last call to the caller, who carries
    /// them out.
    pub fn take_orders(&mut self) -> (r: Vec<Order>)
        ensures
            r@ == old(self)@.orders,
            final(self)@ == (TaskmasterView { orders: Seq::empty(), ..old(self)@ }),
    {
        let mut taken: Vec<Order> = Vec::new();
        std::mem::swap(&mut taken, &mut self.orders);
        taken
    }

    /// The status report at `now`.
    pub fn get_proc_list(&self, now: u64) -> (r: Vec<Prog>)
        ensures
            progs_view(r@) == snapshot(self@.tasks, now),
    {
        let ghost tasks = self@.tasks;
        let ghost lines = |t: TaskView| t.procs.map_values(|p: ProcView| prog_of(p, now));
        let mut proc_list: Vec<Prog> = Vec::new();
        let mut i: usize = 0;
        while i < self.task_lst.len()
            invariant
                i <= self.task_lst.len(),
                tasks == self@.tasks,
                lines == |t: TaskView| t.procs.map_values(|p: ProcView| prog_of(p, now)),
                progs_view(proc_list@) == tasks.take(i as int).map_values(lines).flatten(),
            decreases self.task_lst.len() - i,
        {
            let task = &self.task_lst[i];
            let ghost so_far = progs_view(proc_list@);
            let ghost procs = procs_view(task.process_lst@);
            let mut j: usize = 0;
            while j < task.process_lst.len()
                invariant
                    j <= task.process_lst.len(),
                    procs == procs_view(task.process_lst@),
                    lines(tasks[i as int]) == procs.map_values(|p: ProcView| prog_of(p, now)),
                    progs_view(proc_list@) == so_far + lines(tasks[i as int]).take(j as int),
                decreases task.process_lst.len() - j,
            {
                let proc = &task.process_lst[j];
                let ghost listed = progs_view(proc_list@);
                let line = Prog {
                    proc_name: proc.get_name(),
                    status: proc.get_state(),
                    info: proc.get_current_description(now),
                };
                proc_list.push(line);
                assert(progs_view(proc_list@) =~= listed.push(line@));
                j = j + 1;
            }
            proof {
                lemma_flatten_step(tasks, lines, i as int);
            }
            i = i + 1;
        }
        assert(tasks.take(i as int) =~= tasks);
        proc_list
    }

    /// Where the slot named `to_be_found` is: the number of its program and
    /// its own number there.
    pub fn get_proc_by_name(&self, to_be_found: String) -> (r: Result<(usize, usize), String>)
        ensures
            found_view(r) == (match locate(self@.tasks, to_be_found@) {
                Some(at) => Ok(at),
                None => Err("Process not found"@),
            }),
            r matches Ok(at) ==> at.0 < self.task_lst.len() && at.1
                < self.task_lst[at.0 as int].process_lst.len(),
    {
        let ghost tasks = self@.tasks;
        let ghost name = to_be_found@;
        let mut i: usize = 0;
        while i < self.task_lst.len()
            invariant
                i <= self.task_lst.len(),
                tasks == self@.tasks,
                name == to_be_found@,
                forall|k: int| 0 <= k < i ==> !holds(name)(#[trigger] tasks[k]),
            decreases self.task_lst.len() - i,
        {
            match find_proc(&self.task_lst[i].process_lst, to_be_found.as_str()) {
                Some(j) => {
                    proof {
                        lemma_first_index_is(tasks, holds(name), i as int);
                    }
                    return Ok((i, j));
                },
                None => {},
            }
            i = i + 1;
        }
        proof {
            lemma_first_index_is(tasks, holds(name), tasks.len() as int);
        }
        Err(String::from_str("Process not found"))
    }
}

} // verus!
