use taskmaster::server::file::{FileLog, Files};
use taskmaster::server::loop_exec::Autorestart;
use taskmaster::server::parse::{File, Signal};
use taskmaster::server::task::Task;
use taskmaster::server::tool::{test_nofile, test_stderr, test_stdout};
use taskmaster::server::yaml::{text_to_yaml, Entry, Node};
use taskmaster::State;

const FULL: &str = "programs:
  - name: nginx
    command: /usr/sbin/nginx -g daemon
    numprocs: 3
    autostart: false
    autorestart: unexpected
    exitcodes:
      - 0
      - 2
      - oops
    starttime: 5
    startretries: 7
    stopsignal: QUIT
    stopwaitsecs: 20
    directory: /tmp
    umask: '077'
    stdout: /tmp/nginx.out
    redirect_stdout: true
";

fn copy(node: &Node) -> Node {
    match node {
        Node::Real(s) => Node::Real(s.clone()),
        Node::Integer(i) => Node::Integer(*i),
        Node::String(s) => Node::String(s.clone()),
        Node::Boolean(b) => Node::Boolean(*b),
        Node::Array(v) => Node::Array(v.iter().map(copy).collect()),
        Node::Hash(h) => Node::Hash(
            h.iter().map(|e| Entry { key: copy(&e.key), value: copy(&e.value) }).collect(),
        ),
        Node::Alias(n) => Node::Alias(*n),
        Node::Null => Node::Null,
        Node::BadValue => Node::BadValue,
    }
}

fn first_program(text: &str) -> Node {
    let doc = text_to_yaml(text).unwrap();
    copy(doc.get("programs").unwrap().at(0).unwrap())
}

#[test]
fn text_that_does_not_parse_gives_no_document() {
    assert!(text_to_yaml("a: [1, 2").is_none());
    assert!(text_to_yaml("").is_none());
    assert!(text_to_yaml("a: 1").is_some());
}

#[test]
fn documents_are_read_as_plain_values() {
    let doc = text_to_yaml("a: 1\nb: yes\nc: true\nd: [x, 2]\ne: 1.5\nf: ~\n3: three\n").unwrap();
    assert_eq!(doc.get("a").unwrap().as_i64(), Some(1));
    assert_eq!(doc.get("b").unwrap().as_str(), Some("yes"));
    assert_eq!(doc.get("c").unwrap().as_bool(), Some(true));
    assert_eq!(doc.get("d").unwrap().len(), 2);
    assert_eq!(doc.get("d").unwrap().at(0).unwrap().as_str(), Some("x"));
    assert_eq!(doc.get("d").unwrap().at(1).unwrap().as_i64(), Some(2));
    assert!(doc.get("d").unwrap().at(2).is_none());
    assert!(matches!(doc.get("e"), Some(Node::Real(s)) if s == "1.5"));
    assert!(matches!(doc.get("f"), Some(Node::Null)));
    assert!(doc.get("zz").is_none());
    assert_eq!(doc.at(3).unwrap().as_str(), Some("three"));
    assert!(doc.get("a").unwrap().get("x").is_none());
    assert!(!doc.is_badvalue());
    assert!(Node::BadValue.is_badvalue());
    assert_eq!(doc.as_str(), None);
    assert_eq!(doc.as_i64(), None);
    assert_eq!(doc.as_bool(), None);
}

#[test]
fn every_field_is_read_from_the_entry() {
    let file = File::from_yaml(&first_program(FULL));
    assert_eq!(file.path_command, Some("/usr/sbin/nginx -g daemon".to_string()));
    assert_eq!(file.args, None);
    assert_eq!(file.name, Some("nginx".to_string()));
    assert_eq!(file.numprocs, Some(3));
    assert_eq!(file.autostart, Some(false));
    assert_eq!(file.autorestart, Some(Autorestart::OnError));
    assert_eq!(file.exitcodes, vec![0, 2, 0]);
    assert_eq!(file.starttime, Some(5));
    assert_eq!(file.startretries, Some(7));
    assert_eq!(file.stopsignal, Signal::SIGQUIT);
    assert_eq!(file.stopwaitsecs, Some(20));
    assert_eq!(file.directory, Some("/tmp".to_string()));
    assert_eq!(file.umask, Some(0o077));
    assert!(!file.bool_stdout);
    assert!(file.bool_stderr);
    assert!(!test_stdout(&file));
    assert!(test_stderr(&file));
    assert!(test_nofile(&file));
    assert!(file.prgm_is_launchable());
}

#[test]
fn absent_fields_get_their_defaults() {
    let mut file = File::from_yaml(&first_program("programs:\n  - name: a\n    command: /bin/a\n"));
    assert_eq!(file.numprocs, None);
    assert_eq!(file.autostart, None);
    assert_eq!(file.autorestart, None);
    assert!(file.exitcodes.is_empty());
    assert_eq!(file.umask, None);
    assert_eq!(file.stopsignal, Signal::SIGTERM);
    file.set_conf_default();
    assert_eq!(file.numprocs, Some(1));
    assert_eq!(file.autostart, Some(true));
    assert_eq!(file.autorestart, Some(Autorestart::Never));
    assert_eq!(file.exitcodes, vec![0]);
    assert_eq!(file.startretries, Some(3));
    assert_eq!(file.starttime, Some(0));
    assert_eq!(file.stopwaitsecs, Some(10));
    assert_eq!(file.umask, Some(0o022));
    let copy = file.clone();
    assert_eq!(copy.name, file.name);
    assert_eq!(copy.exitcodes, file.exitcodes);
}

#[test]
fn configured_values_survive_the_defaults() {
    let mut file = File::from_yaml(&first_program(FULL));
    file.set_conf_default();
    assert_eq!(file.numprocs, Some(3));
    assert_eq!(file.autostart, Some(false));
    assert_eq!(file.autorestart, Some(Autorestart::OnError));
    assert_eq!(file.exitcodes, vec![0, 2, 0]);
    assert_eq!(file.startretries, Some(7));
    assert_eq!(file.starttime, Some(5));
    assert_eq!(file.stopwaitsecs, Some(20));
    assert_eq!(file.umask, Some(0o077));
}

#[test]
fn boolean_autorestart_chooses_always_or_never() {
    let on = File::from_yaml(&first_program("programs:\n  - autorestart: true\n"));
    assert_eq!(on.autorestart, Some(Autorestart::Always));
    let off = File::from_yaml(&first_program("programs:\n  - autorestart: false\n"));
    assert_eq!(off.autorestart, Some(Autorestart::Never));
    assert!(!off.prgm_is_launchable());
}

#[test]
fn invalid_umask_is_left_out() {
    let file = File::from_yaml(&first_program("programs:\n  - umask: '999'\n"));
    assert_eq!(file.umask, None);
    let file = File::from_yaml(&first_program("programs:\n  - umask: '70000'\n"));
    assert_eq!(file.umask, None);
}

#[test]
fn command_is_split_into_command_and_arguments() {
    let mut file = File::from_yaml(&first_program(FULL));
    file.init_args();
    assert_eq!(file.path_command, Some("/usr/sbin/nginx".to_string()));
    assert_eq!(file.args, Some(vec!["-g".to_string(), "daemon".to_string()]));
    let mut bare = File::from_yaml(&first_program("programs:\n  - command: ls\n"));
    bare.get_args();
    assert_eq!(bare.path_command, Some("ls".to_string()));
    assert_eq!(bare.args, Some(Vec::new()));
    let mut none = File::from_yaml(&first_program("programs:\n  - name: x\n"));
    none.init_args();
    assert_eq!(none.path_command, None);
    assert_eq!(none.args, None);
}

#[test]
fn log_configuration_is_read_from_the_entry() {
    let log = FileLog::from_file(&first_program(FULL), Some("nginx".to_string()));
    assert_eq!(log.path_stdout_logfile, Some("/tmp/nginx.out".to_string()));
    assert_eq!(log.path_stderr_logfile, None);
    assert_eq!(log.redirect_stdout, Some(true));
    assert_eq!(log.redirect_stderr, None);
    assert_eq!(log.file_stdout, None);
    assert_eq!(log.file_stderr, None);
    assert_eq!(log.name, Some("nginx".to_string()));
}

#[test]
fn generic_names_are_sha1_in_hex() {
    let log = FileLog::from_file(&Node::Null, Some("a".to_string()));
    assert_eq!(log.generic_name_at("c", "b"), "a9993e364706816aba3e25717850c26c9cd0d89d");
    assert_eq!(
        log.create_generic_file("c", "b"),
        Some("./ac----taskmaster-a9993.log".to_string())
    );
    let nameless = FileLog::from_file(&Node::Null, None);
    assert_eq!(nameless.generic_name_at("", ""), "da39a3ee5e6b4b0d3255bfef95601890afd80709");
    let now = log.create_generic_name("-stdout");
    assert_eq!(now.len(), 40);
    assert!(now.chars().all(|c| c.is_ascii_hexdigit() && !c.is_ascii_uppercase()));
}

#[test]
fn files_are_chosen_for_streams_without_one() {
    let mut log = FileLog::from_file(&Node::Null, Some("a".to_string()));
    log.file_stderr = Some("/var/log/a.err".to_string());
    log.create_generic_files("b");
    let stdout = log.file_stdout.clone().unwrap();
    assert!(stdout.starts_with("./a-stdout----taskmaster-"));
    assert!(stdout.ends_with(".log"));
    assert_eq!(stdout.len(), "./a-stdout----taskmaster-".len() + 5 + 4);
    assert_eq!(log.file_stderr, Some("/var/log/a.err".to_string()));
    let copy = log.clone();
    assert_eq!(copy.file_stdout, log.file_stdout);
}

#[test]
fn program_makes_its_slots_with_the_configured_log() {
    let mut task = Task::prepared(&first_program(FULL));
    assert!(task.process_lst.is_empty());
    assert!(task.is_active);
    assert!(task.launchable());
    assert_eq!(task.getnumprocs(), 3);
    assert_eq!(task.getnbrestart(), 3);
    assert_eq!(task.getnameparse(), "nginx");
    assert_eq!(task.getpathref(), "/usr/sbin/nginx");
    assert!(!task.getautostart());
    assert!(!task.autostart());
    assert_eq!(task.set_command("nginx".to_string()), 3);
    assert_eq!(task.process_lst.len(), 3);
    for (i, p) in task.process_lst.iter().enumerate() {
        assert_eq!(p.name, Some(format!("nginx_{}", i)));
        assert_eq!(p.state, State::STOPPED);
        assert_eq!(p.command, Some("/usr/sbin/nginx".to_string()));
        assert_eq!(p.args, vec!["-g".to_string(), "daemon".to_string()]);
        assert_eq!(p.umask, Some(0o077));
        assert_eq!(p.stopsignal, Signal::SIGQUIT);
        assert_eq!(p.exp_exit, vec![0, 2, 0]);
        assert_eq!(p.exp_duration, 5);
        assert_eq!(p.s_file.file_stdout, Some("/tmp/nginx.out".to_string()));
        assert_eq!(p.s_file.file_stderr, None);
        assert_eq!(p.s_file.name, Some(format!("nginx_{}", i)));
    }
    task.add_nb_process(1);
    assert_eq!(task.process_lst.len(), 4);
    assert_eq!(task.process_lst[3].name, Some("nginx_3".to_string()));
    assert_eq!(task.process_lst[3].s_file.file_stdout, None);
    task.files("12:00:00");
    assert!(task.process_lst[3].s_file.file_stdout.as_ref().unwrap().starts_with("./nginx_3-stdout"));
    assert_eq!(task.process_lst[0].s_file.file_stdout, Some("/tmp/nginx.out".to_string()));
    assert!(task.process_lst[0].s_file.file_stderr.as_ref().unwrap().starts_with("./nginx_0-stderr"));
}

#[test]
fn program_without_command_gets_no_slots() {
    let mut task = Task::prepared(&first_program("programs:\n  - name: ghost\n    numprocs: 2\n"));
    assert!(!task.launchable());
    assert_eq!(task.set_command("ghost".to_string()), 2);
    assert!(task.process_lst.is_empty());
    task.add_nb_process(3);
    assert!(task.process_lst.is_empty());
    assert_eq!(task.parse_file.numprocs, Some(2));
    assert_eq!(task.parse_file.autostart, Some(true));
}

#[test]
fn negative_replica_count_asks_for_none() {
    let mut task =
        Task::prepared(&first_program("programs:\n  - name: a\n    command: b\n    numprocs: -2\n"));
    assert_eq!(task.set_command("a".to_string()), -2);
    assert!(task.process_lst.is_empty());
}
