use taskmaster::server::file::FileLog;
use taskmaster::server::loop_exec::{
    always_false, always_true, find_event, find_spawn, test_autorestart, test_autorestart_nb,
    test_autostart, test_time_starting, test_time_stopping, Autorestart, Event, Report, Step,
};
use taskmaster::server::parse::{File, Signal};
use taskmaster::server::proc::{Order, Proc};
use taskmaster::State;

fn blank_log() -> FileLog {
    FileLog {
        redirect_stderr: None,
        redirect_stdout: None,
        path_stdout_logfile: None,
        path_stderr_logfile: None,
        file_stdout: None,
        file_stderr: None,
        name: None,
    }
}

fn slot(name: &str) -> Proc {
    Proc::new("/bin/true".to_string(), blank_log(), Some(name.to_string()))
}

fn spec(policy: Autorestart, retries: i64, uptime: i64) -> File {
    File {
        path_command: Some("/bin/true".to_string()),
        args: None,
        name: Some("job".to_string()),
        numprocs: Some(1),
        autostart: Some(true),
        autorestart: Some(policy),
        exitcodes: vec![0],
        starttime: Some(uptime),
        startretries: Some(retries),
        stopsignal: Signal::SIGTERM,
        stopwaitsecs: Some(10),
        directory: None,
        umask: Some(0o022),
        bool_stdout: true,
        bool_stderr: true,
    }
}

fn invariant_holds(p: &Proc) -> bool {
    let live = matches!(p.state, State::STARTING | State::RUNNING | State::STOPPING);
    p.state != State::UNKNOWN && p.child.is_some() == live
}

#[test]
fn new_slot_is_stopped_and_not_started() {
    let p = slot("job_0");
    assert_eq!(p.state, State::STOPPED);
    assert_eq!(p.description, "Not Started");
    assert_eq!(p.child, None);
    assert_eq!(p.pid, None);
    assert_eq!(p.nbr_restart, 0);
    assert_eq!(p.stopsignal, Signal::SIGTERM);
    assert_eq!(p.exp_exit, vec![0]);
    assert_eq!(p.get_name(), "job_0");
    assert!(invariant_holds(&p));
}

#[test]
fn start_with_child_goes_to_starting() {
    let mut p = slot("job_0");
    let mut orders = Vec::new();
    let r = p.start(Some(41), 7, &mut orders);
    assert_eq!(r, Ok("job_0: started".to_string()));
    assert_eq!(p.state, State::STARTING);
    assert_eq!(p.child, Some(41));
    assert_eq!(p.pid, Some(41));
    assert_eq!(p.started_time, Some(7));
    assert_eq!(p.nbr_restart, 1);
    assert_eq!(p.description, "pid 41 uptime: 0:00:00");
    assert!(orders.is_empty());
    assert!(invariant_holds(&p));
}

#[test]
fn start_without_child_stays_and_reports() {
    let mut p = slot("job_0");
    let mut orders = Vec::new();
    let r = p.start(None, 7, &mut orders);
    assert_eq!(r, Err("Command didn't start".to_string()));
    assert_eq!(p.state, State::STOPPED);
    assert_eq!(p.child, None);
    assert_eq!(p.nbr_restart, 0);
    assert_eq!(p.description, "Command didn't start");
    assert!(orders.is_empty());
}

#[test]
fn start_of_running_slot_is_refused_and_child_given_back() {
    let mut p = slot("job_0");
    let mut orders = Vec::new();
    p.start(Some(41), 0, &mut orders).unwrap();
    let r = p.start(Some(42), 1, &mut orders);
    assert_eq!(r, Err("ERROR (already started)".to_string()));
    assert_eq!(p.child, Some(41));
    assert_eq!(orders, vec![Order::Abandon(42)]);
}

#[test]
fn stop_needs_a_running_slot() {
    let mut p = slot("job_0");
    let mut orders = Vec::new();
    assert_eq!(p.stop(3, &mut orders), Err("job_0: ERROR (not running)".to_string()));
    p.start(Some(41), 0, &mut orders).unwrap();
    assert_eq!(p.stop(3, &mut orders), Err("job_0: ERROR (not running)".to_string()));
    assert!(orders.is_empty());
    p.tick(&spec(Autorestart::Never, 3, 0), Some(Event::Alive), 1, "now", &mut orders);
    assert_eq!(p.state, State::RUNNING);
    assert_eq!(p.stop(3, &mut orders), Ok("job_0: stopped".to_string()));
    assert_eq!(p.state, State::STOPPING);
    assert_eq!(p.started_time, Some(3));
    assert_eq!(orders, vec![Order::Signal(41, Signal::SIGTERM)]);
    assert!(invariant_holds(&p));
}

#[test]
fn running_without_child_cannot_be_stopped() {
    let mut p = slot("job_0");
    p.state = State::RUNNING;
    let mut orders = Vec::new();
    assert_eq!(p.stop(3, &mut orders), Err("No child found".to_string()));
    assert_eq!(p.state, State::RUNNING);
    assert!(orders.is_empty());
}

#[test]
fn restart_of_stopped_slot_reports_both() {
    let mut p = slot("job_0");
    let mut orders = Vec::new();
    let r = p.restart(Some(9), 5, &mut orders);
    assert_eq!(r, Ok("job_0: ERROR (not running)\n\rjob_0: started".to_string()));
    assert_eq!(p.state, State::STARTING);
    assert_eq!(p.child, Some(9));
    assert!(orders.is_empty());
}

#[test]
fn restart_of_running_slot_stops_and_cannot_start() {
    let mut p = slot("job_0");
    let mut orders = Vec::new();
    p.start(Some(41), 0, &mut orders).unwrap();
    p.tick(&spec(Autorestart::Never, 3, 0), Some(Event::Alive), 1, "now", &mut orders);
    let r = p.restart(None, 5, &mut orders);
    assert_eq!(r, Err("job_0: stopped\n\rERROR (already started)".to_string()));
    assert_eq!(p.state, State::STOPPING);
    assert_eq!(orders, vec![Order::Signal(41, Signal::SIGTERM)]);
    assert!(invariant_holds(&p));
}

#[test]
fn restart_without_child_fails_with_both_messages() {
    let mut p = slot("job_0");
    let mut orders = Vec::new();
    let r = p.restart(None, 5, &mut orders);
    assert_eq!(r, Err("job_0: ERROR (not running)\n\rCommand didn't start".to_string()));
    assert_eq!(p.state, State::STOPPED);
}

#[test]
fn no_uptime_runs_on_first_tick_alive() {
    let mut p = slot("job_0");
    let mut orders = Vec::new();
    p.start(Some(41), 100, &mut orders).unwrap();
    p.tick(&spec(Autorestart::Never, 3, 0), Some(Event::Alive), 100, "now", &mut orders);
    assert_eq!(p.state, State::RUNNING);
    assert_eq!(p.child, Some(41));
    assert_eq!(p.started_time, Some(100));
    assert!(invariant_holds(&p));
}

#[test]
fn uptime_is_waited_for() {
    let file = spec(Autorestart::Never, 3, 5);
    let mut p = slot("job_0");
    let mut orders = Vec::new();
    p.start(Some(41), 100, &mut orders).unwrap();
    p.tick(&file, Some(Event::Alive), 104, "now", &mut orders);
    assert_eq!(p.state, State::STARTING);
    p.tick(&file, Some(Event::Alive), 105, "now", &mut orders);
    assert_eq!(p.state, State::RUNNING);
    assert_eq!(p.started_time, Some(105));
}

#[test]
fn starting_without_report_stays() {
    let mut p = slot("job_0");
    let mut orders = Vec::new();
    p.start(Some(41), 100, &mut orders).unwrap();
    p.tick(&spec(Autorestart::Never, 3, 0), None, 200, "now", &mut orders);
    assert_eq!(p.state, State::STARTING);
}

#[test]
fn exit_is_recorded_with_code_and_stamp() {
    let mut p = slot("job_0");
    let mut orders = Vec::new();
    p.start(Some(41), 100, &mut orders).unwrap();
    p.tick(
        &spec(Autorestart::Never, 3, 0),
        Some(Event::Exited(Some(3))),
        101,
        "Oct 28 20:12 PM",
        &mut orders,
    );
    assert_eq!(p.state, State::EXITED);
    assert_eq!(p.child, None);
    assert_eq!(p.pid, None);
    assert_eq!(p.started_time, None);
    assert_eq!(p.exit_error, Some(3));
    assert_eq!(p.get_exit_status(), Some(3));
    assert_eq!(p.description, "Oct 28 20:12 PM");
    assert!(invariant_holds(&p));
}

#[test]
fn never_policy_gives_up_within_one_tick() {
    let file = spec(Autorestart::Never, 3, 0);
    let mut p = slot("job_0");
    let mut orders = Vec::new();
    p.start(Some(41), 0, &mut orders).unwrap();
    p.tick(&file, Some(Event::Exited(Some(1))), 1, "now", &mut orders);
    assert_eq!(p.state, State::EXITED);
    p.tick(&file, None, 2, "now", &mut orders);
    assert_eq!(p.state, State::FATAL);
    for now in 3..10 {
        p.tick(&file, Some(Event::Spawned(99)), now, "now", &mut orders);
        assert_eq!(p.state, State::FATAL);
        assert_eq!(p.child, None);
    }
    assert_eq!(p.nbr_restart, 1);
}

#[test]
fn on_error_accepted_code_does_not_restart() {
    let file = spec(Autorestart::OnError, 3, 0);
    let mut p = slot("job_0");
    let mut orders = Vec::new();
    p.start(Some(41), 0, &mut orders).unwrap();
    p.tick(&file, Some(Event::Exited(Some(0))), 1, "now", &mut orders);
    p.tick(&file, None, 2, "now", &mut orders);
    assert_eq!(p.state, State::FATAL);
}

#[test]
fn on_error_other_code_restarts_up_to_the_bound() {
    let file = spec(Autorestart::OnError, 3, 0);
    let mut p = slot("job_0");
    let mut orders = Vec::new();
    let mut spawns = 1;
    p.start(Some(100), 0, &mut orders).unwrap();
    for round in 0..10u32 {
        p.tick(&file, Some(Event::Exited(Some(1))), 1, "now", &mut orders);
        assert_eq!(p.state, State::EXITED);
        p.tick(&file, None, 2, "now", &mut orders);
        if p.state == State::FATAL {
            break;
        }
        assert_eq!(p.state, State::BACKOFF);
        p.tick(&file, Some(Event::Spawned(101 + round)), 3, "now", &mut orders);
        assert_eq!(p.state, State::STARTING);
        spawns += 1;
    }
    assert_eq!(p.state, State::FATAL);
    assert_eq!(spawns, 3);
    assert_eq!(p.nbr_restart, 3);
}

#[test]
fn always_policy_spawns_exactly_three_times() {
    let file = spec(Autorestart::Always, 3, 0);
    let mut p = slot("job_0");
    let mut orders = Vec::new();
    let mut spawns = 0;
    assert_eq!(p.start(Some(10), 0, &mut orders), Ok("job_0: started".to_string()));
    spawns += 1;
    let mut ticks = 0;
    while p.state != State::FATAL && ticks < 100 {
        let event = match p.state {
            State::STARTING | State::RUNNING => Some(Event::Exited(Some(0))),
            State::BACKOFF => {
                spawns += 1;
                Some(Event::Spawned(10 + spawns))
            }
            _ => None,
        };
        p.tick(&file, event, ticks, "now", &mut orders);
        assert!(invariant_holds(&p));
        ticks += 1;
    }
    assert_eq!(p.state, State::FATAL);
    assert_eq!(spawns, 3);
    assert_eq!(p.nbr_restart, 3);
    assert!(orders.is_empty());
}

#[test]
fn killed_by_signal_counts_as_code_zero() {
    let file = spec(Autorestart::OnError, 3, 0);
    let mut p = slot("job_0");
    p.state = State::EXITED;
    p.exit_error = None;
    assert!(!test_autorestart(&file, &p));
    assert_eq!(p.update_methods(&file, None, 0), Step::Fatal);
}

#[test]
fn backoff_spawn_failure_gives_up() {
    let file = spec(Autorestart::Always, 3, 0);
    let mut p = slot("job_0");
    p.state = State::BACKOFF;
    let mut orders = Vec::new();
    p.tick(&file, Some(Event::SpawnFailed), 0, "now", &mut orders);
    assert_eq!(p.state, State::FATAL);
    assert_eq!(p.description, "Command didn't start");
    assert_eq!(p.nbr_restart, 0);
}

#[test]
fn backoff_waits_for_its_spawn() {
    let file = spec(Autorestart::Always, 3, 0);
    let mut p = slot("job_0");
    p.state = State::BACKOFF;
    let mut orders = Vec::new();
    p.tick(&file, None, 0, "now", &mut orders);
    assert_eq!(p.state, State::BACKOFF);
}

#[test]
fn stopping_exit_goes_to_stopped() {
    let file = spec(Autorestart::Always, 3, 0);
    let mut p = slot("job_0");
    let mut orders = Vec::new();
    p.start(Some(41), 0, &mut orders).unwrap();
    p.tick(&file, Some(Event::Alive), 1, "now", &mut orders);
    p.stop(2, &mut orders).unwrap();
    p.tick(&file, Some(Event::Exited(None)), 3, "then", &mut orders);
    assert_eq!(p.state, State::STOPPED);
    assert_eq!(p.child, None);
    assert_eq!(p.description, "then");
    p.tick(&file, None, 4, "later", &mut orders);
    assert_eq!(p.state, State::STOPPED);
    assert!(invariant_holds(&p));
}

#[test]
fn grace_period_ends_in_a_kill() {
    let file = spec(Autorestart::Never, 3, 0);
    let mut p = slot("job_0");
    let mut orders = Vec::new();
    p.start(Some(41), 0, &mut orders).unwrap();
    p.tick(&file, Some(Event::Alive), 1, "now", &mut orders);
    p.stop(100, &mut orders).unwrap();
    orders.clear();
    p.tick(&file, Some(Event::Alive), 109, "now", &mut orders);
    assert!(orders.is_empty());
    assert_eq!(p.state, State::STOPPING);
    p.tick(&file, Some(Event::Alive), 110, "now", &mut orders);
    assert_eq!(orders, vec![Order::Kill(41)]);
    assert_eq!(p.state, State::STOPPING);
    assert_eq!(p.child, Some(41));
}

#[test]
fn fatal_slot_starts_again_on_request_and_counts_afresh() {
    let mut p = slot("job_0");
    p.state = State::FATAL;
    p.nbr_restart = 3;
    let mut orders = Vec::new();
    assert_eq!(p.start(Some(5), 0, &mut orders), Ok("job_0: started".to_string()));
    assert_eq!(p.state, State::STARTING);
    assert_eq!(p.nbr_restart, 1);
}

#[test]
fn unexpected_spawn_report_is_given_back() {
    let file = spec(Autorestart::Never, 3, 0);
    let mut p = slot("job_0");
    let mut orders = Vec::new();
    p.tick(&file, Some(Event::Spawned(77)), 0, "now", &mut orders);
    assert_eq!(p.state, State::STOPPED);
    assert_eq!(orders, vec![Order::Abandon(77)]);
}

#[test]
fn counter_stays_at_its_largest_value() {
    let mut p = slot("job_0");
    p.nbr_restart = i64::MAX;
    p.spawned(1, 0);
    assert_eq!(p.nbr_restart, i64::MAX);
}

#[test]
fn description_of_running_slot_shows_uptime() {
    let mut p = slot("job_0");
    let mut orders = Vec::new();
    p.start(Some(4242), 10, &mut orders).unwrap();
    p.change_to_running(10);
    assert_eq!(p.get_current_description(10 + 3725), "pid 4242 uptime: 1:02:05");
    assert_eq!(p.get_current_description(0), "pid 4242 uptime: 0:00:00");
    assert_eq!(p.get_state(), State::RUNNING);
}

#[test]
fn policy_tests_read_the_configuration() {
    let mut file = spec(Autorestart::Always, 2, 4);
    let mut p = slot("job_0");
    assert!(test_autostart(&file, &p));
    file.autostart = Some(false);
    assert!(!test_autostart(&file, &p));
    file.autostart = None;
    assert!(test_autostart(&file, &p));
    assert!(test_autorestart_nb(&file, &p));
    p.nbr_restart = 2;
    assert!(!test_autorestart_nb(&file, &p));
    file.startretries = None;
    assert!(test_autorestart_nb(&file, &p));
    p.nbr_restart = 3;
    assert!(!test_autorestart_nb(&file, &p));
    p.started_time = Some(10);
    assert!(!test_time_starting(&file, &p, 13));
    assert!(test_time_starting(&file, &p, 14));
    assert!(!test_time_stopping(&file, &p, 19));
    assert!(test_time_stopping(&file, &p, 20));
    assert!(always_true(&file, &p));
    assert!(!always_false(&file, &p));
}

#[test]
fn negative_limits_are_always_reached() {
    let file = spec(Autorestart::Always, -1, -5);
    let mut p = slot("job_0");
    p.state = State::EXITED;
    assert_eq!(p.update_methods(&file, None, 0), Step::Fatal);
    p.state = State::STARTING;
    p.child = Some(1);
    assert_eq!(p.update_methods(&file, Some(Event::Alive), 0), Step::Running);
}

#[test]
fn exit_or_running_reads_the_event() {
    let p = slot("job_0");
    assert!(p.exit_or_running(&Event::Exited(Some(1))));
    assert!(!p.exit_or_running(&Event::Alive));
}

#[test]
fn change_state_sets_only_the_state() {
    let mut p = slot("job_0");
    p.change_state(State::BACKOFF);
    assert_eq!(p.state, State::BACKOFF);
    p.change_to_fatal();
    assert_eq!(p.state, State::FATAL);
    p.change_to_backoff();
    assert_eq!(p.state, State::BACKOFF);
    p.change_to_exited("a");
    assert_eq!((p.state, p.description.as_str()), (State::EXITED, "a"));
    p.change_to_stopped("b");
    assert_eq!((p.state, p.description.as_str()), (State::STOPPED, "b"));
    assert_eq!(p.description, "b");
}

#[test]
fn reports_are_found_by_name() {
    let reports = vec![
        Report { name: "a_0".to_string(), event: Event::Alive },
        Report { name: "b_0".to_string(), event: Event::Spawned(3) },
        Report { name: "a_0".to_string(), event: Event::SpawnFailed },
    ];
    assert_eq!(find_event(&reports, &Some("a_0".to_string())), Some(Event::Alive));
    assert_eq!(find_event(&reports, &Some("c_0".to_string())), None);
    assert_eq!(find_event(&reports, &None), None);
    assert_eq!(find_spawn(&reports, &Some("b_0".to_string())), Some(3));
    assert_eq!(find_spawn(&reports, &Some("a_0".to_string())), None);
}

#[test]
fn slot_shows_its_name_and_state() {
    let mut p = slot("job_0");
    assert_eq!(p.get_status(), "proc_name = job_0 proc_status STOPPED");
    p.state = State::EXITED;
    p.exit_error = Some(1);
    assert!(p.test_autorestart(&spec(Autorestart::Always, 3, 0)));
    assert!(!p.test_autorestart(&spec(Autorestart::Never, 3, 0)));
    p.name = None;
    assert_eq!(p.get_status(), "proc_name =  proc_status EXITED");
}
