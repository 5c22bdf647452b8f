use taskmaster::server::accepts;
use taskmaster::{CallOn, Prog, Request, State, BUFFER_SIZE};

fn known() -> Vec<String> {
    vec!["web_0".to_string(), "web_1".to_string()]
}

fn parsed(line: &str) -> Result<(CallOn, usize), String> {
    Request::parse(&line.to_string(), known()).map(|r| (r.cmd, r.len))
}

#[test]
fn single_words_ask_for_status_or_reload() {
    assert!(matches!(parsed("status"), Ok((CallOn::Status, 1))));
    assert!(matches!(parsed("Status"), Ok((CallOn::Status, 1))));
    assert!(matches!(parsed("reload"), Ok((CallOn::Reload, 1))));
    assert!(matches!(parsed("Reload"), Ok((CallOn::Reload, 1))));
}

#[test]
fn unknown_single_word_is_named() {
    assert_eq!(parsed("bogus").unwrap_err(), "*** Unknown syntax: bogus");
    assert_eq!(parsed("").unwrap_err(), "*** Unknown syntax: ");
    assert_eq!(parsed("STATUS").unwrap_err(), "*** Unknown syntax: STATUS");
    assert_eq!(parsed("start").unwrap_err(), "*** Unknown syntax: start");
}

#[test]
fn two_words_act_on_a_known_process() {
    assert!(matches!(parsed("start web_0"), Ok((CallOn::Start(n), 2)) if n == "web_0"));
    assert!(matches!(parsed("Start web_1"), Ok((CallOn::Start(n), 2)) if n == "web_1"));
    assert!(matches!(parsed("stop web_0"), Ok((CallOn::Stop(n), 2)) if n == "web_0"));
    assert!(matches!(parsed("Stop web_0"), Ok((CallOn::Stop(n), 2)) if n == "web_0"));
    assert!(matches!(parsed("restart web_1"), Ok((CallOn::Restart(n), 2)) if n == "web_1"));
    assert!(matches!(parsed("Restart web_1"), Ok((CallOn::Restart(n), 2)) if n == "web_1"));
}

#[test]
fn unseen_process_is_refused_before_the_verb_is_read() {
    assert_eq!(parsed("start db_0").unwrap_err(), "db_0: ERROR (no such process)");
    assert_eq!(parsed("bogus db_0").unwrap_err(), "db_0: ERROR (no such process)");
    assert_eq!(parsed("status ").unwrap_err(), ": ERROR (no such process)");
}

#[test]
fn unknown_verb_quotes_the_line() {
    assert_eq!(parsed("bogus web_0").unwrap_err(), "** Unknown syntax: [\"bogus\", \"web_0\"]");
    assert_eq!(parsed("status web_0").unwrap_err(), "** Unknown syntax: [\"status\", \"web_0\"]");
}

#[test]
fn more_than_two_words_are_too_many() {
    assert_eq!(parsed("start web_0 now").unwrap_err(), "Too many arguments.");
    assert_eq!(parsed("a b c d").unwrap_err(), "Too many arguments.");
    assert_eq!(parsed("start  web_0").unwrap_err(), "Too many arguments.");
}

#[test]
fn proc_exist_searches_the_known_names() {
    assert_eq!(Request::proc_exist("web_1".to_string(), known()), Ok("web_1".to_string()));
    assert_eq!(
        Request::proc_exist("web_2".to_string(), known()),
        Err("web_2: ERROR (no such process)".to_string())
    );
    assert_eq!(
        Request::proc_exist("web_0".to_string(), Vec::new()),
        Err("web_0: ERROR (no such process)".to_string())
    );
}

#[test]
fn is_command_reads_missing_words_as_empty() {
    assert_eq!(
        Request::is_command(Vec::new(), 1, known()).unwrap_err(),
        "*** Unknown syntax: "
    );
    assert_eq!(
        Request::is_command(vec!["start".to_string()], 2, known()).unwrap_err(),
        ": ERROR (no such process)"
    );
    assert_eq!(Request::unknown_syntax("[]".to_string()), "** Unknown syntax: []");
}

#[test]
fn messages_are_bounded_by_the_buffer() {
    assert_eq!(BUFFER_SIZE, 1500);
    assert!(Request::fits(0));
    assert!(Request::fits(1500));
    assert!(!Request::fits(1501));
    assert!(!accepts(0));
    assert!(accepts(1));
    assert!(accepts(1500));
    assert!(!accepts(1501));
}

#[test]
fn defaults_of_protocol_values() {
    assert_eq!(State::default(), State::UNKNOWN);
    let p = Prog::default();
    assert_eq!(p.proc_name, "");
    assert_eq!(p.status, State::UNKNOWN);
    assert_eq!(p.info, "");
    assert_eq!(State::BACKOFF.name(), "BACKOFF");
    assert_eq!(State::STOPPED.name(), format!("{:?}", State::STOPPED));
    let r = Request { cmd: CallOn::Stop("a".to_string()), len: 2 };
    let c = r.clone();
    assert!(matches!(c.cmd, CallOn::Stop(n) if n == "a"));
    assert_eq!(c.len, 2);
}
