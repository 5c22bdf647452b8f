use taskmaster::server::conf::{Config, Taskmaster};
use taskmaster::server::file::{clock_text, stamp_text};
use taskmaster::server::loop_exec::{Event, Need, Report};
use taskmaster::server::yaml::text_to_yaml;

const FIRST: &str = "programs:
  - name: a
    command: /bin/a
    numprocs: 11
  - name: a_1
    command: /bin/b
    numprocs: 2
";

const SECOND: &str = "programs:
  - name: a_1
    command: /bin/b
    numprocs: 3
  - name: a
    command: /bin/a
    numprocs: 12
  - name: a_1_1
    command: /bin/c
    stdout: /tmp/c.out
";

fn all_names(tm: &Taskmaster) -> Vec<String> {
    tm.get_proc_list(0).into_iter().map(|p| p.proc_name).collect()
}

fn all_distinct(names: &[String]) -> bool {
    let mut sorted = names.to_vec();
    sorted.sort();
    sorted.windows(2).all(|w| w[0] != w[1])
}

#[test]
fn slot_names_are_unique_after_set_up_and_reload() {
    let mut tm = Taskmaster::new("c.yaml", FIRST.to_string(), 1);
    tm.set_all_command();
    let names = all_names(&tm);
    assert_eq!(names.len(), 13);
    assert!(all_distinct(&names));
    assert!(names.contains(&"a_10".to_string()));
    assert!(names.contains(&"a_1_0".to_string()));
    tm.reload(SECOND.to_string(), &Vec::new(), 1, "10:00:00");
    let names = all_names(&tm);
    assert_eq!(names.len(), 12 + 3 + 1);
    assert!(all_distinct(&names));
    assert_eq!(names[11], "a_11");
    assert_eq!(names[14], "a_1_2");
    assert_eq!(names[15], "a_1_1_0");
    tm.update_and_exec(&Vec::new(), 2, "d");
    assert!(all_distinct(&all_names(&tm)));
}

#[test]
fn reload_chooses_log_files_before_it_spawns() {
    let mut tm = Taskmaster::new("c.yaml", FIRST.to_string(), 1);
    tm.set_all_command();
    let needs = tm.reload_needs(&SECOND.to_string(), 1, "10:00:00");
    let last = needs.last().unwrap();
    assert_eq!(last.name, "a_1_1_0");
    match &last.need {
        Need::Spawn(launch) => {
            assert_eq!(launch.command, "/bin/c");
            assert_eq!(launch.stdout, Some("/tmp/c.out".to_string()));
            let stderr = launch.stderr.clone().unwrap();
            assert!(stderr.starts_with("./a_1_1_0-stderr----taskmaster-"));
        }
        Need::Poll(_) => panic!("a new slot owns no child"),
    }
    let reports = vec![Report { name: "a_1_1_0".to_string(), event: Event::Spawned(5) }];
    tm.reload(SECOND.to_string(), &reports, 1, "10:00:00");
    let slot = &tm.task_lst[2].process_lst[0];
    assert_eq!(slot.child, Some(5));
    assert_eq!(slot.s_file.file_stdout, Some("/tmp/c.out".to_string()));
    match &last.need {
        Need::Spawn(launch) => assert_eq!(slot.s_file.file_stderr, launch.stderr),
        Need::Poll(_) => {}
    }
}

#[test]
fn programs_may_be_keyed_by_number() {
    let raw = "programs:
  0:
    name: a
    command: /bin/a
  1:
    name: b
    command: /bin/b
  3:
    name: d
    command: /bin/d
";
    let mut tm = Taskmaster::new("c.yaml", raw.to_string(), 1);
    tm.set_all_command();
    assert_eq!(all_names(&tm), vec!["a_0".to_string(), "b_0".to_string()]);
}

#[test]
fn registry_without_document_is_empty() {
    let mut tm = Taskmaster::from_doc("c.yaml", "x".to_string(), 3, None);
    tm.set_all_command();
    assert!(tm.task_lst.is_empty());
    assert_eq!(tm.ppid, 3);
    assert_eq!(tm.config.path, "c.yaml");
    assert_eq!(tm.config.raw, "x");
    tm.update_config("y".to_string());
    assert_eq!(tm.config.raw, "y");
    let doc = text_to_yaml("other: 1").unwrap();
    let tm = Taskmaster::from_doc("c.yaml", "other: 1".to_string(), 3, Some(&doc));
    assert!(tm.task_lst.is_empty());
    let tasks = Taskmaster::set_task_lst(&doc);
    assert!(tasks.is_empty());
    let tasks = Taskmaster::init_task_lst(&text_to_yaml(FIRST).unwrap());
    assert_eq!(tasks.len(), 2);
    assert_eq!(tasks[0].parse_file.path_command, Some("/bin/a".to_string()));
    assert_eq!(tasks[0].parse_file.args, Some(Vec::new()));
}

#[test]
fn configuration_keeps_path_and_text() {
    let mut c = Config::set("/etc/tm.yaml", "a: 1".to_string());
    assert_eq!(c.path, "/etc/tm.yaml");
    assert_eq!(c.raw, "a: 1");
    c.reload("a: 2".to_string());
    assert_eq!(c.path, "/etc/tm.yaml");
    assert_eq!(c.raw, "a: 2");
}

fn two_digits_up_to(text: &str, most: u32) -> bool {
    text.len() == 2
        && text.chars().all(|c| c.is_ascii_digit())
        && text.parse::<u32>().map(|n| n <= most).unwrap_or(false)
}

#[test]
fn local_time_is_written_in_the_known_patterns() {
    let clock = clock_text();
    let parts: Vec<&str> = clock.split(':').collect();
    assert_eq!(parts.len(), 3);
    assert!(two_digits_up_to(parts[0], 23));
    assert!(two_digits_up_to(parts[1], 59));
    assert!(two_digits_up_to(parts[2], 60));

    let stamp = stamp_text();
    let parts: Vec<&str> = stamp.split(' ').collect();
    assert_eq!(parts.len(), 4);
    let months =
        ["Jan", "Feb", "Mar", "Apr", "May", "Jun", "Jul", "Aug", "Sep", "Oct", "Nov", "Dec"];
    assert!(months.contains(&parts[0]));
    assert!(two_digits_up_to(parts[1], 31));
    assert_ne!(parts[1], "00");
    let time: Vec<&str> = parts[2].split(':').collect();
    assert_eq!(time.len(), 2);
    assert!(two_digits_up_to(time[0], 23));
    assert!(two_digits_up_to(time[1], 59));
    let hour: u32 = time[0].parse().unwrap();
    assert_eq!(parts[3], if hour < 12 { "AM" } else { "PM" });
}
