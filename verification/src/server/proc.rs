use vstd::prelude::*;
use vstd::string::*;

use super::file::{FileLog, FileLogView, Files};
use super::loop_exec::{
    find_spawn, reached, reports_view, retry, spawn_for, test_autorestart, test_time_starting,
    test_time_stopping, Event, Launch, LaunchView, LoopRestart, Need, NeedView, Report, Step,
    Watch, WatchView,
};
use super::parse::{copy_text, copy_texts, File, FileView, Signal};
use super::tool::{decimal, duration_text, push_decimal, DurationDate};
use crate::{outcome_view, State};

verus! {

/// Something the caller has to do to a child process on behalf of the
/// registry, which only decides.
#[derive(Debug, PartialEq, Eq, Clone, Copy, Structural)]
pub enum Order {
    /// Send the signal to the child with this process id.
    Signal(u32, Signal),
    /// Kill the child with this process id.
    Kill(u32),
    /// The registry no longer holds the child with this process id: reap it
    /// when it exits.
    Abandon(u32),
}

/// One supervised process slot.
#[derive(Debug)]
pub struct Proc {
    pub name: Option<String>,
    pub command: Option<String>,
    pub args: Vec<String>,
    pub umask: Option<u32>,
    /// Process id of the child that this slot owns, while it owns one.
    pub child: Option<u32>,
    pub exit_error: Option<i32>,
    pub s_file: FileLog,
    pub state: State,
    pub pid: Option<u32>,
    pub description: String,
    /// Clock reading, in seconds, at the last spawn, promotion or stop request.
    pub started_time: Option<u64>,
    pub nbr_restart: i64,
    pub stopsignal: Signal,
    pub exp_exit: Vec<i32>,
    pub exp_duration: u64,
}

/// Mathematical model of a [`Proc`].
pub ghost struct ProcView {
    pub name: Option<Seq<char>>,
    pub command: Option<Seq<char>>,
    pub args: Seq<Seq<char>>,
    pub umask: Option<u32>,
    pub child: Option<u32>,
    pub exit_error: Option<i32>,
    pub s_file: FileLogView,
    pub state: State,
    pub pid: Option<u32>,
    pub description: Seq<char>,
    pub started_time: Option<u64>,
    pub nbr_restart: i64,
    pub stopsignal: Signal,
    pub exp_exit: Seq<i32>,
    pub exp_duration: u64,
}

impl View for Proc {
    type V = ProcView;

    open spec fn view(&self) -> ProcView {
        ProcView {
            name: self.name.deep_view(),
            command: self.command.deep_view(),
            args: self.args.deep_view(),
            umask: self.umask,
            child: self.child,
            exit_error: self.exit_error,
            s_file: self.s_file@,
            state: self.state,
            pid: self.pid,
            description: self.description@,
            started_time: self.started_time,
            nbr_restart: self.nbr_restart,
            stopsignal: self.stopsignal,
            exp_exit: self.exp_exit@,
            exp_duration: self.exp_duration,
        }
    }
}

/// Status line of a child that is up: its process id and how long it has been up.
pub open spec fn uptime_text(pid: u32, secs: nat) -> Seq<char> {
    "pid "@ + decimal(pid as nat) + " uptime: "@ + duration_text(secs)
}

impl ProcView {
    /// The invariant of a process slot: it never is in the state `UNKNOWN`,
    /// and it owns a child exactly while it is starting, running or stopping.
    pub open spec fn wf(self) -> bool {
        &&& self.state != State::UNKNOWN
        &&& (self.child is Some <==> self.state.live())
    }

    /// The name of the slot; empty for a slot without identity.
    pub open spec fn label(self) -> Seq<char> {
        match self.name {
            Some(name) => name,
            None => Seq::empty(),
        }
    }

    /// A removed slot: neither an identity nor a child.
    pub open spec fn placeholder(self) -> bool {
        self.name is None && self.child is None
    }

    /// A start request is accepted in these states only.
    pub open spec fn startable(self) -> bool {
        self.state == State::STOPPED || self.state == State::EXITED || self.state == State::FATAL
    }

    /// The spawn counter after one more spawn; it stays at the largest value
    /// it can hold.
    pub open spec fn bumped(self) -> i64 {
        if self.nbr_restart < i64::MAX {
            (self.nbr_restart + 1) as i64
        } else {
            i64::MAX
        }
    }

    /// Seconds between the slot's clock mark and `now`; zero without a mark
    /// and where the clock ran backwards.
    pub open spec fn elapsed(self, now: u64) -> nat {
        match self.started_time {
            Some(t) => if now >= t {
                (now - t) as nat
            } else {
                0
            },
            None => 0,
        }
    }

    /// The slot after a child with process id `pid` was spawned for it at `now`.
    pub open spec fn launched(self, pid: u32, now: u64) -> ProcView {
        ProcView {
            child: Some(pid),
            pid: Some(pid),
            state: State::STARTING,
            started_time: Some(now),
            nbr_restart: self.bumped(),
            description: uptime_text(pid, 0),
            ..self
        }
    }

    /// The slot after a start request at `now`, for which the caller spawned
    /// the child `spawned`, or could spawn none. A slot that has given up
    /// counts its spawns afresh.
    pub open spec fn start(self, spawned: Option<u32>, now: u64) -> ProcView {
        if !self.startable() {
            self
        } else {
            match spawned {
                Some(pid) => if self.state == State::FATAL {
                    (ProcView { nbr_restart: 0, ..self }).launched(pid, now)
                } else {
                    self.launched(pid, now)
                },
                None => ProcView { description: "Command didn't start"@, ..self },
            }
        }
    }

    pub open spec fn start_result(self, spawned: Option<u32>) -> Result<Seq<char>, Seq<char>> {
        if !self.startable() {
            Err("ERROR (already started)"@)
        } else {
            match spawned {
                Some(_) => Ok(self.label() + ": started"@),
                None => Err("Command didn't start"@),
            }
        }
    }

    /// A child handed to a slot that cannot start is given back.
    pub open spec fn start_orders(self, spawned: Option<u32>) -> Seq<Order> {
        match spawned {
            Some(pid) => if self.startable() {
                Seq::empty()
            } else {
                seq![Order::Abandon(pid)]
            },
            None => Seq::empty(),
        }
    }

    /// Only a running slot that owns a child can be stopped.
    pub open spec fn stoppable(self) -> bool {
        self.state == State::RUNNING && self.child is Some
    }

    /// The slot after a stop request at `now`.
    pub open spec fn stop(self, now: u64) -> ProcView {
        if self.stoppable() {
            ProcView { state: State::STOPPING, started_time: Some(now), ..self }
        } else {
            self
        }
    }

    pub open spec fn stop_result(self) -> Result<Seq<char>, Seq<char>> {
        if self.stoppable() {
            Ok(self.label() + ": stopped"@)
        } else if self.state == State::RUNNING {
            Err("No child found"@)
        } else {
            Err(self.label() + ": ERROR (not running)"@)
        }
    }

    pub open spec fn stop_orders(self) -> Seq<Order> {
        if self.stoppable() {
            seq![Order::Signal(self.child->0, self.stopsignal)]
        } else {
            Seq::empty()
        }
    }

    /// A restart is a stop request followed by a start request.
    pub open spec fn restart(self, spawned: Option<u32>, now: u64) -> ProcView {
        self.stop(now).start(spawned, now)
    }

    /// Both messages, the stop's first; the restart succeeds where its start does.
    pub open spec fn restart_result(self, spawned: Option<u32>, now: u64) -> Result<
        Seq<char>,
        Seq<char>,
    > {
        let first = match self.stop_result() {
            Ok(m) => m,
            Err(m) => m,
        };
        match self.stop(now).start_result(spawned) {
            Ok(m) => Ok(first + "\n\r"@ + m),
            Err(m) => Err(first + "\n\r"@ + m),
        }
    }

    pub open spec fn restart_orders(self, spawned: Option<u32>, now: u64) -> Seq<Order> {
        self.stop_orders() + self.stop(now).start_orders(spawned)
    }

    /// What a status report says of the slot at `now`.
    pub open spec fn current_description(self, now: u64) -> Seq<char> {
        if self.state == State::RUNNING && self.pid is Some && self.started_time is Some {
            uptime_text(self.pid->0, self.elapsed(now))
        } else {
            self.description
        }
    }

    /// What it takes to spawn the child of the slot, in the directory `directory`.
    pub open spec fn launch(self, directory: Option<Seq<char>>) -> LaunchView {
        LaunchView {
            command: match self.command {
                Some(command) => command,
                None => Seq::empty(),
            },
            args: self.args,
            umask: self.umask,
            directory,
            stdout: self.s_file.file_stdout,
            stderr: self.s_file.file_stderr,
        }
    }

    /// What a tick has to be told of the slot: whether its child is still
    /// there, or, for a slot that is backing off, the outcome of a new
    /// spawn. A slot without a name is told nothing.
    pub open spec fn tick_need(self, directory: Option<Seq<char>>) -> Option<WatchView> {
        match self.name {
            Some(name) => match self.child {
                Some(pid) => Some(WatchView { name, need: NeedView::Poll(pid) }),
                None => if self.state == State::BACKOFF {
                    Some(WatchView { name, need: NeedView::Spawn(self.launch(directory)) })
                } else {
                    None
                },
            },
            None => None,
        }
    }

    /// What a start request has to be told of the slot: the outcome of a
    /// spawn, if the slot can start.
    pub open spec fn start_need(self, directory: Option<Seq<char>>) -> Option<WatchView> {
        match self.name {
            Some(name) => if self.startable() {
                Some(WatchView { name, need: NeedView::Spawn(self.launch(directory)) })
            } else {
                None
            },
            None => None,
        }
    }

    /// The slot once the exit of its child has been seen.
    pub open spec fn left(self, state: State, code: Option<i32>, stamp: Seq<char>) -> ProcView {
        ProcView {
            state,
            child: None,
            pid: None,
            started_time: None,
            exit_error: code,
            description: stamp,
            ..self
        }
    }

    /// The slot once its child has stayed up long enough.
    pub open spec fn promoted(self, now: u64) -> ProcView {
        ProcView {
            state: State::RUNNING,
            pid: if self.pid is Some {
                self.pid
            } else {
                self.child
            },
            started_time: Some(now),
            ..self
        }
    }

    /// The transition that one tick of the reconciliation loop makes on the
    /// slot: `event` is what the caller saw of the slot's child, or of the
    /// spawn that the slot was waiting for, since the last tick.
    pub open spec fn choose_step(self, file: FileView, event: Option<Event>, now: u64) -> Step {
        match self.state {
            State::STARTING => match event {
                Some(Event::Exited(code)) if self.child is Some => Step::Exited(code),
                Some(Event::Alive) if self.child is Some => if reached(
                    self.elapsed(now),
                    file.min_uptime(),
                ) {
                    Step::Running
                } else {
                    Step::Stay
                },
                _ => Step::Stay,
            },
            State::RUNNING => match event {
                Some(Event::Exited(code)) if self.child is Some => Step::Exited(code),
                _ => Step::Stay,
            },
            State::STOPPING => match event {
                Some(Event::Exited(code)) if self.child is Some => Step::Stopped(code),
                Some(Event::Alive) if self.child is Some => if reached(self.elapsed(now), file.grace()) {
                    Step::Kill
                } else {
                    Step::Stay
                },
                _ => Step::Stay,
            },
            State::EXITED => if retry(file, self.nbr_restart, self.exit_error) {
                Step::Backoff
            } else {
                Step::Fatal
            },
            State::BACKOFF => match event {
                Some(Event::Spawned(pid)) => Step::Spawned(pid),
                Some(Event::SpawnFailed) => Step::SpawnFailed,
                _ => Step::Stay,
            },
            _ => Step::Stay,
        }
    }

    /// The slot after the transition `step`, made at `now`; `stamp` is the
    /// date that an exit is reported with.
    pub open spec fn apply(self, step: Step, now: u64, stamp: Seq<char>) -> ProcView {
        match step {
            Step::Stay => self,
            Step::Kill => self,
            Step::Exited(code) => self.left(State::EXITED, code, stamp),
            Step::Stopped(code) => self.left(State::STOPPED, code, stamp),
            Step::Running => self.promoted(now),
            Step::Backoff => ProcView { state: State::BACKOFF, ..self },
            Step::Fatal => ProcView { state: State::FATAL, ..self },
            Step::Spawned(pid) => self.launched(pid, now),
            Step::SpawnFailed => ProcView {
                state: State::FATAL,
                description: "Command didn't start"@,
                ..self
            },
        }
    }

    /// What the caller has to do after the transition `step`: kill the child
    /// whose grace period is over, and take back a spawned child that the
    /// slot was not waiting for.
    pub open spec fn step_orders(self, step: Step, event: Option<Event>) -> Seq<Order> {
        match step {
            Step::Kill => match self.child {
                Some(pid) => seq![Order::Kill(pid)],
                None => Seq::empty(),
            },
            Step::Spawned(_) => Seq::empty(),
            _ => match event {
                Some(Event::Spawned(pid)) => seq![Order::Abandon(pid)],
                _ => Seq::empty(),
            },
        }
    }

    /// The slot after one tick of the reconciliation loop.
    pub open spec fn tick(
        self,
        file: FileView,
        event: Option<Event>,
        now: u64,
        stamp: Seq<char>,
    ) -> ProcView {
        self.apply(self.choose_step(file, event, now), now, stamp)
    }

    pub open spec fn tick_orders(self, file: FileView, event: Option<Event>, now: u64) -> Seq<Order> {
        self.step_orders(self.choose_step(file, event, now), event)
    }
}

/// The model of a watch, if there is one.
pub open spec fn watch_view(w: Option<Watch>) -> Option<WatchView> {
    match w {
        Some(w) => Some(w@),
        None => None,
    }
}

impl Files for Proc {
    fn files(&mut self, time: &str)
        ensures
            final(self)@ == (ProcView { s_file: old(self)@.s_file.with_files(time@), ..old(self)@ }),
    {
        self.s_file.create_generic_files(time);
    }
}

impl LoopRestart for Proc {
    /// Takes up the child that the reports hold for the slot, if they hold one.
    fn start_loop(&mut self, reports: &Vec<Report>, now: u64)
        ensures
            final(self)@ == (match spawn_for(reports_view(reports@), old(self)@.name) {
                Some(pid) => old(self)@.launched(pid, now),
                None => old(self)@,
            }),
    {
        match find_spawn(reports, &self.name) {
            Some(pid) => {
                self.spawned(pid, now);
            },
            None => {},
        }
    }
}

impl Clone for Proc {
    fn clone(&self) -> (r: Self)
        ensures
            r@ == self@,
    {
        Proc {
            name: copy_text(&self.name),
            command: copy_text(&self.command),
            args: copy_texts(&self.args),
            umask: self.umask,
            child: self.child,
            exit_error: self.exit_error,
            s_file: self.s_file.clone(),
            state: self.state,
            pid: self.pid,
            description: self.description.clone(),
            started_time: self.started_time,
            nbr_restart: self.nbr_restart,
            stopsignal: self.stopsignal,
            exp_exit: self.exp_exit.clone(),
            exp_duration: self.exp_duration,
        }
    }
}

impl Proc {
    /// Takes a start request made at `now`. The caller spawns the child
    /// beforehand, where the slot is `startable`, and hands in its process
    /// id, or `None` where the spawn failed.
    pub fn start(&mut self, spawned: Option<u32>, now: u64, orders: &mut Vec<Order>) -> (r: Result<
        String,
        String,
    >)
        ensures
            final(self)@ == old(self)@.start(spawned, now),
            outcome_view(r) == old(self)@.start_result(spawned),
            final(orders)@ == old(orders)@ + old(self)@.start_orders(spawned),
            old(self)@.wf() ==> final(self)@.wf(),
    {
        if self.is_startable() {
            match spawned {
                Some(pid) => {
                    if self.state == State::FATAL {
                        self.nbr_restart = 0;
                    }
                    let mut message = self.get_name();
                    message.append(": started");
                    self.spawned(pid, now);
                    Ok(message)
                },
                None => {
                    self.description = String::from_str("Command didn't start");
                    Err(String::from_str("Command didn't start"))
                },
            }
        } else {
            match spawned {
                Some(pid) => {
                    orders.push(Order::Abandon(pid));
                },
                None => {},
            }
            Err(String::from_str("ERROR (already started)"))
        }
    }

    /// Takes a stop request made at `now`: the caller is told to signal the child.
    pub fn stop(&mut self, now: u64, orders: &mut Vec<Order>) -> (r: Result<String, String>)
        ensures
            final(self)@ == old(self)@.stop(now),
            outcome_view(r) == old(self)@.stop_result(),
            final(orders)@ == old(orders)@ + old(self)@.stop_orders(),
            old(self)@.wf() ==> final(self)@.wf(),
    {
        if self.state == State::RUNNING {
            match self.child {
                Some(pid) => {
                    self.state = State::STOPPING;
                    self.started_time = Some(now);
                    orders.push(Order::Signal(pid, self.stopsignal));
                    let mut message = self.get_name();
                    message.append(": stopped");
                    Ok(message)
                },
                None => {
                    Err(String::from_str("No child found"))
                },
            }
        } else {
            let mut message = self.get_name();
            message.append(": ERROR (not running)");
            Err(message)
        }
    }

    /// A stop request followed by a start request; both messages come back.
    pub fn restart(&mut self, spawned: Option<u32>, now: u64, orders: &mut Vec<Order>) -> (r: Result<
        String,
        String,
    >)
        ensures
            final(self)@ == old(self)@.restart(spawned, now),
            outcome_view(r) == old(self)@.restart_result(spawned, now),
            final(orders)@ == old(orders)@ + old(self)@.restart_orders(spawned, now),
            old(self)@.wf() ==> final(self)@.wf(),
    {
        let mut message = match self.stop(now, orders) {
            Ok(stopped) => stopped,
            Err(e_stopped) => e_stopped,
        };
        message.append("\n\r");
        let r = match self.start(spawned, now, orders) {
            Ok(started) => {
                message.append(started.as_str());
                Ok(message)
            },
            Err(e_start) => {
                message.append(e_start.as_str());
                Err(message)
            },
        };
        r
    }

    /// Whether the restart policy of `config` asks for another spawn of
    /// the slot, as it has exited.
    pub fn test_autorestart(&self, config: &File) -> (r: bool)
        ensures
            r == retry(config@, self.nbr_restart, self.exit_error),
    {
        test_autorestart(config, self)
    }

    /// Whether `event` reports that the child has exited.
    pub fn exit_or_running(&self, event: &Event) -> (r: bool)
        ensures
            r == (event is Exited),
    {
        match event {
            Event::Exited(_) => true,
            _ => false,
        }
    }

    /// Records that the child has exited with `code`.
    pub fn exit_process(&mut self, code: Option<i32>, stamp: &str)
        ensures
            final(self)@ == old(self)@.left(State::EXITED, code, stamp@),
    {
        self.change_to_exited(stamp);
        self.started_time = None;
        self.exit_error = code;
    }

    /// What it takes to spawn the child of the slot.
    pub fn get_launch(&self, directory: &Option<String>) -> (r: Launch)
        ensures
            r@ == self@.launch(directory.deep_view()),
    {
        Launch {
            command: match &self.command {
                Some(command) => command.clone(),
                None => String::new(),
            },
            args: copy_texts(&self.args),
            umask: self.umask,
            directory: copy_text(directory),
            stdout: copy_text(&self.s_file.file_stdout),
            stderr: copy_text(&self.s_file.file_stderr),
        }
    }

    /// What the next tick has to be told of the slot.
    pub fn get_tick_need(&self, directory: &Option<String>) -> (r: Option<Watch>)
        ensures
            watch_view(r) == self@.tick_need(directory.deep_view()),
    {
        match &self.name {
            Some(name) => match self.child {
                Some(pid) => Some(Watch { name: name.clone(), need: Need::Poll(pid) }),
                None => if self.state == State::BACKOFF {
                    Some(Watch { name: name.clone(), need: Need::Spawn(self.get_launch(directory)) })
                } else {
                    None
                },
            },
            None => None,
        }
    }

    /// What a start request has to be told of the slot.
    pub fn get_start_need(&self, directory: &Option<String>) -> (r: Option<Watch>)
        ensures
            watch_view(r) == self@.start_need(directory.deep_view()),
    {
        match &self.name {
            Some(name) => if self.is_startable() {
                Some(Watch { name: name.clone(), need: Need::Spawn(self.get_launch(directory)) })
            } else {
                None
            },
            None => None,
        }
    }

    pub fn get_name(&self) -> (r: String)
        ensures
            r@ == self@.label(),
    {
        match &self.name {
            Some(name) => name.clone(),
            None => String::new(),
        }
    }

    pub fn get_current_description(&self, now: u64) -> (r: String)
        ensures
            r@ == self@.current_description(now),
    {
        if self.state == State::RUNNING {
            match (self.pid, self.started_time) {
                (Some(pid), Some(_)) => uptime_line(pid, self.elapsed(now)),
                _ => self.description.clone(),
            }
        } else {
            self.description.clone()
        }
    }

    pub fn get_state(&self) -> (r: State)
        ensures
            r == self.state,
    {
        self.state
    }

    /// The name and the state of the slot, in one line.
    pub fn get_status(&self) -> (r: String)
        ensures
            r@ == "proc_name = "@ + self@.label() + " proc_status "@ + self.state.label(),
    {
        let mut line = String::from_str("proc_name = ");
        let name = self.get_name();
        line.append(name.as_str());
        line.append(" proc_status ");
        line.append(self.state.name());
        line
    }

    pub fn get_exit_status(&self) -> (r: Option<i32>)
        ensures
            r == self.exit_error,
    {
        self.exit_error
    }

    pub fn is_startable(&self) -> (r: bool)
        ensures
            r == self@.startable(),
    {
        match self.state {
            State::STOPPED | State::EXITED | State::FATAL => true,
            _ => false,
        }
    }

    /// Seconds since the slot's clock mark.
    pub fn elapsed(&self, now: u64) -> (r: u64)
        ensures
            r == self@.elapsed(now),
    {
        match self.started_time {
            Some(t) => if now >= t {
                now - t
            } else {
                0
            },
            None => 0,
        }
    }

    /// A stopped slot for the command `command_arg`.
    pub fn new(command_arg: String, file_log: FileLog, opt_name: Option<String>) -> (r: Self)
        ensures
            r@ == (ProcView {
                name: opt_name.deep_view(),
                command: Some(command_arg@),
                args: Seq::empty(),
                umask: None,
                child: None,
                exit_error: None,
                s_file: file_log@,
                state: State::STOPPED,
                pid: None,
                description: "Not Started"@,
                started_time: None,
                nbr_restart: 0,
                stopsignal: Signal::SIGTERM,
                exp_exit: seq![0i32],
                exp_duration: 0,
            }),
            r@.wf(),
    {
        let mut exp_exit: Vec<i32> = Vec::new();
        exp_exit.push(0);
        let r = Proc {
            name: opt_name,
            command: Some(command_arg),
            args: Vec::new(),
            umask: None,
            child: None,
            exit_error: None,
            s_file: file_log,
            state: State::STOPPED,
            pid: None,
            description: String::from_str("Not Started"),
            started_time: None,
            nbr_restart: 0,
            stopsignal: Signal::SIGTERM,
            exp_exit,
            exp_duration: 0,
        };
        assert(r.args.deep_view() =~= Seq::<Seq<char>>::empty());
        r
    }

    pub fn change_state(&mut self, state: State)
        ensures
            final(self)@ == (ProcView { state, ..old(self)@ }),
    {
        self.state = state;
    }

    pub fn change_to_backoff(&mut self)
        ensures
            final(self)@ == (ProcView { state: State::BACKOFF, ..old(self)@ }),
    {
        self.change_state(State::BACKOFF);
    }

    pub fn change_to_fatal(&mut self)
        ensures
            final(self)@ == (ProcView { state: State::FATAL, ..old(self)@ }),
    {
        self.change_state(State::FATAL);
    }

    pub fn change_to_running(&mut self, now: u64)
        ensures
            final(self)@ == old(self)@.promoted(now),
    {
        if self.pid.is_none() {
            self.pid = self.child;
        }
        self.started_time = Some(now);
        self.change_state(State::RUNNING);
    }

    pub fn change_to_exited(&mut self, stamp: &str)
        ensures
            final(self)@ == (ProcView {
                state: State::EXITED,
                child: None,
                pid: None,
                description: stamp@,
                ..old(self)@
            }),
    {
        self.change_state(State::EXITED);
        self.child = None;
        self.pid = None;
        self.description = String::from_str(stamp);
    }

    pub fn change_to_stopped(&mut self, stamp: &str)
        ensures
            final(self)@ == (ProcView {
                state: State::STOPPED,
                child: None,
                pid: None,
                description: stamp@,
                ..old(self)@
            }),
    {
        self.change_state(State::STOPPED);
        self.child = None;
        self.pid = None;
        self.description = String::from_str(stamp);
    }

    /// Records that the child with process id `pid` was spawned for the slot at `now`.
    pub fn spawned(&mut self, pid: u32, now: u64)
        ensures
            final(self)@ == old(self)@.launched(pid, now),
    {
        self.child = Some(pid);
        if self.nbr_restart < i64::MAX {
            self.nbr_restart = self.nbr_restart + 1;
        }
        self.started_time = Some(now);
        self.pid = Some(pid);
        self.description = uptime_line(pid, 0);
        self.change_state(State::STARTING);
    }

    /// Chooses the transition that this tick makes on the slot.
    pub fn update_methods(&self, file: &File, event: Option<Event>, now: u64) -> (r: Step)
        ensures
            r == self@.choose_step(file@, event, now),
    {
        match self.state {
            State::STOPPED => Step::Stay,
            State::STARTING => match (self.child, event) {
                (Some(_), Some(Event::Exited(code))) => Step::Exited(code),
                (Some(_), Some(Event::Alive)) => if test_time_starting(file, self, now) {
                    Step::Running
                } else {
                    Step::Stay
                },
                _ => Step::Stay,
            },
            State::RUNNING => match (self.child, event) {
                (Some(_), Some(Event::Exited(code))) => Step::Exited(code),
                _ => Step::Stay,
            },
            State::STOPPING => match (self.child, event) {
                (Some(_), Some(Event::Exited(code))) => Step::Stopped(code),
                (Some(_), Some(Event::Alive)) => if test_time_stopping(file, self, now) {
                    Step::Kill
                } else {
                    Step::Stay
                },
                _ => Step::Stay,
            },
            State::BACKOFF => match event {
                Some(Event::Spawned(pid)) => Step::Spawned(pid),
                Some(Event::SpawnFailed) => Step::SpawnFailed,
                _ => Step::Stay,
            },
            State::EXITED => if test_autorestart(file, self) {
                Step::Backoff
            } else {
                Step::Fatal
            },
            State::FATAL => Step::Stay,
            State::UNKNOWN => Step::Stay,
        }
    }

    /// Makes the transition `step` on the slot.
    pub fn exec_step(
        &mut self,
        step: Step,
        event: Option<Event>,
        now: u64,
        stamp: &str,
        orders: &mut Vec<Order>,
    )
        ensures
            final(self)@ == old(self)@.apply(step, now, stamp@),
            final(orders)@ == old(orders)@ + old(self)@.step_orders(step, event),
    {
        let child = self.child;
        match step {
            Step::Stay => {},
            Step::Kill => {},
            Step::Exited(code) => {
                self.exit_process(code, stamp);
            },
            Step::Stopped(code) => {
                self.change_to_stopped(stamp);
                self.started_time = None;
                self.exit_error = code;
            },
            Step::Running => {
                self.change_to_running(now);
            },
            Step::Backoff => {
                self.change_to_backoff();
            },
            Step::Fatal => {
                self.change_to_fatal();
            },
            Step::Spawned(pid) => {
                self.spawned(pid, now);
            },
            Step::SpawnFailed => {
                self.description = String::from_str("Command didn't start");
                self.change_to_fatal();
            },
        }
        match step {
            Step::Kill => match child {
                Some(pid) => {
                    orders.push(Order::Kill(pid));
                },
                None => {},
            },
            Step::Spawned(_) => {},
            _ => match event {
                Some(Event::Spawned(pid)) => {
                    orders.push(Order::Abandon(pid));
                },
                _ => {},
            },
        }
    }

    /// One tick of the reconciliation loop on the slot.
    pub fn tick(
        &mut self,
        file: &File,
        event: Option<Event>,
        now: u64,
        stamp: &str,
        orders: &mut Vec<Order>,
    )
        ensures
            final(self)@ == old(self)@.tick(file@, event, now, stamp@),
            final(orders)@ == old(orders)@ + old(self)@.tick_orders(file@, event, now),
            old(self)@.wf() ==> final(self)@.wf(),
    {
        let step = self.update_methods(file, event, now);
        self.exec_step(step, event, now, stamp, orders);
    }

    pub fn set_args_task(&mut self, parse_file: &File)
        ensures
            final(self)@ == (ProcView {
                args: match parse_file@.args {
                    Some(args) => args,
                    None => old(self)@.args,
                },
                ..old(self)@
            }),
    {
        match &parse_file.args {
            Some(args) => {
                self.args = copy_texts(args);
            },
            None => {},
        }
    }

    pub fn setup_command_umask(&mut self, parse_file: &File)
        ensures
            final(self)@ == (ProcView {
                umask: match parse_file.umask {
                    Some(umask) => Some(umask),
                    None => old(self)@.umask,
                },
                ..old(self)@
            }),
    {
        match parse_file.umask {
            Some(umask) => {
                self.umask = Some(umask);
            },
            None => {},
        }
    }
}

fn uptime_line(pid: u32, secs: u64) -> (r: String)
    ensures
        r@ == uptime_text(pid, secs as nat),
{
    let mut r = String::from_str("pid ");
    push_decimal(&mut r, pid as u64);
    r.append(" uptime: ");
    let span = secs.durationdate();
    r.append(span.as_str());
    r
}

} // verus!
