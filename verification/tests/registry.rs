use taskmaster::server::conf::Taskmaster;
use taskmaster::server::loop_exec::{Event, Need, Report, Watch};
use taskmaster::server::parse::Signal;
use taskmaster::server::proc::Order;
use taskmaster::server::yaml::text_to_yaml;
use taskmaster::{CallOn, State};

const CONF_A: &str = "programs:
  - name: web
    command: /bin/sleep 100
    numprocs: 2
";

const CONF_B: &str = "programs:
  - name: web
    command: /bin/sleep 100
    numprocs: 4
  - name: worker
    command: /bin/sleep 200
    numprocs: 1
";

const CONF_TWO: &str = "programs:
  - name: web
    command: /bin/sleep 100
  - name: cache
    command: /bin/sleep 300
    stopsignal: INT
";

const CONF_ONE: &str = "programs:
  - name: web
    command: /bin/sleep 100
";

fn registry(raw: &str) -> Taskmaster {
    let mut tm = Taskmaster::new("conf.yaml", raw.to_string(), 1);
    tm.set_all_command();
    tm
}

fn spawn_all(watches: &[Watch], first_pid: u32) -> Vec<Report> {
    let mut reports = Vec::new();
    let mut pid = first_pid;
    for w in watches {
        if let Need::Spawn(_) = w.need {
            reports.push(Report { name: w.name.clone(), event: Event::Spawned(pid) });
            pid += 1;
        }
    }
    reports
}

fn alive_all(watches: &[Watch]) -> Vec<Report> {
    let mut reports = Vec::new();
    for w in watches {
        if let Need::Poll(_) = w.need {
            reports.push(Report { name: w.name.clone(), event: Event::Alive });
        }
    }
    reports
}

fn started(raw: &str) -> Taskmaster {
    let mut tm = registry(raw);
    let reports = spawn_all(&tm.get_autostart_needs(), 100);
    tm.start_all_task(&reports, 0);
    let reports = alive_all(&tm.get_tick_needs());
    tm.update_and_exec(&reports, 1, "now");
    tm
}

fn states(tm: &Taskmaster) -> Vec<(String, State)> {
    tm.get_proc_list(0).into_iter().map(|p| (p.proc_name, p.status)).collect()
}

fn invariant_holds(tm: &Taskmaster) -> bool {
    tm.task_lst.iter().all(|t| {
        t.process_lst.iter().all(|p| {
            let live = matches!(p.state, State::STARTING | State::RUNNING | State::STOPPING);
            p.state != State::UNKNOWN && p.child.is_some() == live
        })
    })
}

#[test]
fn status_of_empty_registry_is_empty_success() {
    let tm = registry("programs: []\n");
    let r = tm.status(0);
    assert!(matches!(r.cmd, CallOn::Status));
    assert_eq!(r.success, Ok(String::new()));
    assert!(r.content.is_empty());
}

#[test]
fn unreadable_text_describes_no_program() {
    let tm = registry("programs: [unclosed");
    assert!(tm.task_lst.is_empty());
    assert!(tm.status(0).content.is_empty());
    assert_eq!(tm.nprocs, 0);
}

#[test]
fn programs_get_their_slots() {
    let tm = registry(CONF_A);
    assert_eq!(tm.task_lst.len(), 1);
    assert_eq!(tm.nprocs, 2);
    assert_eq!(
        states(&tm),
        vec![("web_0".to_string(), State::STOPPED), ("web_1".to_string(), State::STOPPED)]
    );
    let p = &tm.task_lst[0].process_lst[1];
    assert_eq!(p.command, Some("/bin/sleep".to_string()));
    assert_eq!(p.args, vec!["100".to_string()]);
    assert_eq!(p.umask, Some(0o022));
    assert_eq!(p.description, "Not Started");
    let file = &tm.task_lst[0].parse_file;
    assert_eq!(file.numprocs, Some(2));
    assert_eq!(file.autostart, Some(true));
    assert_eq!(file.startretries, Some(3));
    assert_eq!(file.starttime, Some(0));
    assert_eq!(file.stopwaitsecs, Some(10));
    assert_eq!(file.exitcodes, vec![0]);
    assert!(tm.name_exist("web".to_string()));
    assert!(!tm.name_exist("worker".to_string()));
}

#[test]
fn duplicate_names_keep_the_first_entry() {
    let tm = registry(
        "programs:
  - name: web
    command: /bin/first
  - name: web
    command: /bin/second
    numprocs: 3
  - command: /bin/nameless
",
    );
    assert_eq!(tm.task_lst.len(), 1);
    assert_eq!(tm.nprocs, 1);
    assert_eq!(tm.task_lst[0].process_lst[0].command, Some("/bin/first".to_string()));
    assert_eq!(states(&tm), vec![("web_0".to_string(), State::STOPPED)]);
}

#[test]
fn autostart_spawns_and_first_tick_runs() {
    let mut tm = registry(CONF_A);
    let needs = tm.get_autostart_needs();
    assert_eq!(needs.len(), 2);
    assert_eq!(needs[0].name, "web_0");
    match &needs[1].need {
        Need::Spawn(launch) => {
            assert_eq!(launch.command, "/bin/sleep");
            assert_eq!(launch.args, vec!["100".to_string()]);
            assert_eq!(launch.umask, Some(0o022));
        }
        Need::Poll(_) => panic!("a stopped slot owns no child"),
    }
    tm.start_all_task(&spawn_all(&needs, 100), 0);
    assert!(!tm.all_task_stable());
    assert_eq!(
        states(&tm),
        vec![("web_0".to_string(), State::STARTING), ("web_1".to_string(), State::STARTING)]
    );
    let needs = tm.get_tick_needs();
    assert!(matches!(needs[0].need, Need::Poll(100)));
    assert!(matches!(needs[1].need, Need::Poll(101)));
    tm.update_and_exec(&alive_all(&needs), 1, "now");
    assert!(tm.all_task_stable());
    assert_eq!(
        states(&tm),
        vec![("web_0".to_string(), State::RUNNING), ("web_1".to_string(), State::RUNNING)]
    );
    assert!(invariant_holds(&tm));
    assert!(tm.take_orders().is_empty());
}

#[test]
fn autostart_off_leaves_slots_stopped() {
    let mut tm = registry(
        "programs:
  - name: web
    command: /bin/sleep 100
    autostart: false
",
    );
    assert!(tm.get_autostart_needs().is_empty());
    tm.start_all_task(&Vec::new(), 0);
    assert_eq!(states(&tm), vec![("web_0".to_string(), State::STOPPED)]);
    assert!(tm.all_task_stable());
}

#[test]
fn stop_of_unknown_process_changes_nothing() {
    let mut tm = started(CONF_A);
    let before = states(&tm);
    let counters: Vec<i64> = tm.task_lst[0].process_lst.iter().map(|p| p.nbr_restart).collect();
    let r = tm.stop("nonexistent".to_string(), 5);
    assert!(matches!(&r.cmd, CallOn::Stop(name) if name == "nonexistent"));
    let message = r.success.unwrap_err();
    assert!(message.to_lowercase().contains("not found"));
    assert_eq!(message, "Process not found");
    assert_eq!(r.content.len(), 2);
    assert_eq!(states(&tm), before);
    let after: Vec<i64> = tm.task_lst[0].process_lst.iter().map(|p| p.nbr_restart).collect();
    assert_eq!(after, counters);
    assert!(tm.take_orders().is_empty());
    assert_eq!(tm.start("nonexistent".to_string(), &Vec::new(), 5).success, Err("Process not found".to_string()));
    assert_eq!(tm.restart("nonexistent".to_string(), &Vec::new(), 5).success, Err("Process not found".to_string()));
    assert!(tm.get_start_needs(&"nonexistent".to_string()).is_empty());
    assert!(tm.get_proc_by_name("nonexistent".to_string()).is_err());
}

#[test]
fn stop_signals_the_child_and_tick_sees_it_stopped() {
    let mut tm = started(CONF_TWO);
    let r = tm.stop("cache_0".to_string(), 5);
    assert_eq!(r.success, Ok("cache_0: stopped".to_string()));
    assert_eq!(r.content[1].status, State::STOPPING);
    assert_eq!(tm.take_orders(), vec![Order::Signal(101, Signal::SIGINT)]);
    assert!(tm.take_orders().is_empty());
    let reports = vec![Report { name: "cache_0".to_string(), event: Event::Exited(None) }];
    tm.update_and_exec(&reports, 6, "Oct 28 20:12 PM");
    let r = tm.status(7);
    assert_eq!(r.content[1].status, State::STOPPED);
    assert_eq!(r.content[1].info, "Oct 28 20:12 PM");
    assert_eq!(r.content[0].status, State::RUNNING);
    assert_eq!(r.content[0].info, "pid 100 uptime: 0:00:06");
    assert!(invariant_holds(&tm));
}

#[test]
fn start_request_takes_the_reported_child() {
    let mut tm = registry(CONF_A);
    let needs = tm.get_start_needs(&"web_1".to_string());
    assert_eq!(needs.len(), 1);
    let r = tm.start("web_1".to_string(), &spawn_all(&needs, 7), 3);
    assert!(matches!(&r.cmd, CallOn::Start(name) if name == "web_1"));
    assert_eq!(r.success, Ok("web_1: started".to_string()));
    assert_eq!(r.content[0].status, State::STOPPED);
    assert_eq!(r.content[1].status, State::STARTING);
    assert_eq!(tm.get_proc_by_name("web_1".to_string()), Ok((0, 1)));
    assert!(tm.get_start_needs(&"web_1".to_string()).is_empty());
    let r = tm.start("web_1".to_string(), &Vec::new(), 4);
    assert_eq!(r.success, Err("ERROR (already started)".to_string()));
}

#[test]
fn start_request_reports_a_failed_spawn() {
    let mut tm = registry(CONF_A);
    let reports = vec![Report { name: "web_0".to_string(), event: Event::SpawnFailed }];
    let r = tm.start("web_0".to_string(), &reports, 3);
    assert_eq!(r.success, Err("Command didn't start".to_string()));
    assert_eq!(r.content[0].status, State::STOPPED);
    assert_eq!(r.content[0].info, "Command didn't start");
}

#[test]
fn restart_request_composes_both_messages() {
    let mut tm = registry(CONF_A);
    let needs = tm.get_start_needs(&"web_0".to_string());
    let r = tm.restart("web_0".to_string(), &spawn_all(&needs, 7), 3);
    assert!(matches!(&r.cmd, CallOn::Restart(name) if name == "web_0"));
    assert_eq!(r.success, Ok("web_0: ERROR (not running)\n\rweb_0: started".to_string()));
    assert_eq!(r.content[0].status, State::STARTING);
}

#[test]
fn reload_without_change_touches_nothing() {
    let mut tm = started(CONF_A);
    let before = states(&tm);
    for _ in 0..2 {
        assert!(tm.reload_needs(&CONF_A.to_string(), 9, "12:00:00").is_empty());
        let r = tm.reload(CONF_A.to_string(), &Vec::new(), 9, "12:00:00");
        assert!(matches!(r.cmd, CallOn::Reload));
        assert_eq!(r.success, Ok("Reload file with success: 0 change".to_string()));
        assert_eq!(states(&tm), before);
        assert_eq!(tm.task_lst[0].process_lst[0].nbr_restart, 1);
        assert_eq!(tm.task_lst[0].process_lst[1].nbr_restart, 1);
        assert_eq!(tm.nprocs, 2);
        assert!(tm.take_orders().is_empty());
    }
}

#[test]
fn reload_grows_a_program_and_adds_another() {
    let mut tm = started(CONF_A);
    let needs = tm.reload_needs(&CONF_B.to_string(), 9, "12:00:00");
    let names: Vec<&str> = needs.iter().map(|w| w.name.as_str()).collect();
    assert_eq!(names, vec!["web_2", "web_3", "worker_0"]);
    let r = tm.reload(CONF_B.to_string(), &spawn_all(&needs, 200), 9, "12:00:00");
    assert_eq!(r.success, Ok("Reload with success".to_string()));
    assert_eq!(
        states(&tm),
        vec![
            ("web_0".to_string(), State::RUNNING),
            ("web_1".to_string(), State::RUNNING),
            ("web_2".to_string(), State::STARTING),
            ("web_3".to_string(), State::STARTING),
            ("worker_0".to_string(), State::STARTING),
        ]
    );
    assert_eq!(tm.task_lst[0].process_lst[0].child, Some(100));
    assert_eq!(tm.task_lst[0].process_lst[0].nbr_restart, 1);
    assert_eq!(tm.task_lst[0].process_lst[1].child, Some(101));
    assert_eq!(tm.task_lst[0].process_lst[2].child, Some(200));
    assert_eq!(tm.task_lst[1].process_lst[0].child, Some(202));
    assert_eq!(tm.task_lst[1].process_lst[0].command, Some("/bin/sleep".to_string()));
    assert_eq!(tm.task_lst[1].process_lst[0].args, vec!["200".to_string()]);
    assert_eq!(tm.task_lst[0].parse_file.numprocs, Some(4));
    assert_eq!(tm.nprocs, 5);
    assert_eq!(tm.config.raw, CONF_B);
    assert!(tm.take_orders().is_empty());
    assert!(invariant_holds(&tm));
    let r = tm.reload(CONF_B.to_string(), &Vec::new(), 10, "12:00:00");
    assert_eq!(r.success, Ok("Reload file with success: 0 change".to_string()));
}

#[test]
fn reload_before_any_start_leaves_new_slots_ready() {
    let mut tm = registry(CONF_A);
    tm.reload(CONF_B.to_string(), &Vec::new(), 9, "12:00:00");
    let got = states(&tm);
    assert_eq!(got.len(), 5);
    assert_eq!(got[2], ("web_2".to_string(), State::STOPPED));
    assert_eq!(got[4], ("worker_0".to_string(), State::STOPPED));
    assert_eq!(tm.task_lst[0].process_lst[2].description, "Command didn't start");
}

#[test]
fn reload_shrinks_last_slots_first() {
    let mut tm = started(CONF_B);
    let needs = tm.reload_needs(&CONF_A.to_string(), 9, "12:00:00");
    assert!(needs.is_empty());
    let r = tm.reload(CONF_A.to_string(), &Vec::new(), 9, "12:00:00");
    assert_eq!(r.success, Ok("Reload with success".to_string()));
    assert_eq!(
        tm.take_orders(),
        vec![
            Order::Signal(103, Signal::SIGTERM),
            Order::Abandon(103),
            Order::Signal(102, Signal::SIGTERM),
            Order::Abandon(102),
            Order::Signal(104, Signal::SIGTERM),
        ]
    );
    assert_eq!(
        states(&tm),
        vec![
            ("web_0".to_string(), State::RUNNING),
            ("web_1".to_string(), State::RUNNING),
            ("worker_0".to_string(), State::STOPPING),
        ]
    );
    assert_eq!(tm.nprocs, 5);
    assert!(invariant_holds(&tm));
}

#[test]
fn reload_removes_a_program_once_it_has_stopped() {
    let mut tm = started(CONF_TWO);
    let r = tm.reload(CONF_ONE.to_string(), &Vec::new(), 9, "12:00:00");
    assert_eq!(r.success, Ok("Reload with success".to_string()));
    assert_eq!(tm.take_orders(), vec![Order::Signal(101, Signal::SIGINT)]);
    assert_eq!(
        states(&tm),
        vec![("web_0".to_string(), State::RUNNING), ("cache_0".to_string(), State::STOPPING)]
    );
    assert!(!tm.task_lst[1].is_active);
    let needs = tm.get_tick_needs();
    tm.update_and_exec(&alive_all(&needs), 10, "now");
    assert_eq!(states(&tm).len(), 2);
    let reports = vec![
        Report { name: "web_0".to_string(), event: Event::Alive },
        Report { name: "cache_0".to_string(), event: Event::Exited(Some(0)) },
    ];
    tm.update_and_exec(&reports, 11, "now");
    assert_eq!(states(&tm), vec![("web_0".to_string(), State::RUNNING)]);
    assert_eq!(tm.task_lst.len(), 1);
    assert!(!tm.name_exist("cache".to_string()));
    assert!(invariant_holds(&tm));
}

#[test]
fn reload_with_unreadable_text_fails_and_changes_nothing() {
    let mut tm = started(CONF_A);
    let before = states(&tm);
    let r = tm.reload("programs: [unclosed".to_string(), &Vec::new(), 9, "12:00:00");
    assert_eq!(r.success, Err("Reload failed: the configuration cannot be read".to_string()));
    assert_eq!(states(&tm), before);
    assert_eq!(tm.config.raw, CONF_A);
}

#[test]
fn reload_from_takes_the_parsed_document() {
    let mut tm = started(CONF_A);
    let doc = text_to_yaml(CONF_B).unwrap();
    let needs = tm.reload_needs_from(&CONF_B.to_string(), Some(&doc), 9, "12:00:00");
    assert_eq!(needs.len(), 3);
    let r = tm.reload_from(CONF_B.to_string(), Some(&doc), &spawn_all(&needs, 300), 9, "12:00:00");
    assert_eq!(r.content.len(), 5);
    assert_eq!(r.content[4].proc_name, "worker_0");
    assert_eq!(r.content[4].status, State::STARTING);
    assert_eq!(r.content[4].info, "pid 302 uptime: 0:00:00");
}

#[test]
fn crashing_program_is_spawned_three_times() {
    let mut tm = registry(
        "programs:
  - name: crash
    command: /bin/false
    autorestart: true
    startretries: 3
",
    );
    let mut spawns = 0;
    let needs = tm.get_autostart_needs();
    spawns += needs.len();
    tm.start_all_task(&spawn_all(&needs, 10), 0);
    for now in 1..50u64 {
        let needs = tm.get_tick_needs();
        let mut reports = Vec::new();
        for w in &needs {
            match w.need {
                Need::Poll(_) => {
                    reports.push(Report { name: w.name.clone(), event: Event::Exited(Some(1)) })
                }
                Need::Spawn(_) => {
                    spawns += 1;
                    reports.push(Report {
                        name: w.name.clone(),
                        event: Event::Spawned(10 + now as u32),
                    })
                }
            }
        }
        tm.update_and_exec(&reports, now, "now");
        assert!(invariant_holds(&tm));
    }
    assert_eq!(states(&tm), vec![("crash_0".to_string(), State::FATAL)]);
    assert_eq!(spawns, 3);
    assert!(tm.all_task_stable());
    assert!(tm.get_tick_needs().is_empty());
}

#[test]
fn tick_removes_slots_without_name_and_child() {
    let mut tm = registry(CONF_A);
    tm.task_lst[0].process_lst[0].name = None;
    tm.update_and_exec(&Vec::new(), 1, "now");
    assert_eq!(states(&tm), vec![("web_1".to_string(), State::STOPPED)]);
}

#[test]
fn lookups_by_program_name() {
    let tm = registry(CONF_TWO);
    assert_eq!(tm.get_task_by_name(&Some("cache".to_string())), Ok(1));
    assert_eq!(tm.get_task_by_name(&Some("nope".to_string())), Err("Task not found".to_string()));
    assert_eq!(tm.get_task_by_name(&None), Err("Task has no name".to_string()));
}
