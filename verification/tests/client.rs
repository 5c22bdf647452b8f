use taskmaster::client::editor::{Editor, Key};
use taskmaster::client::history::History;
use taskmaster::{CallOn, Prog, Response, State};

#[test]
fn history_starts_with_one_empty_line() {
    let h = History::initialize();
    assert_eq!(h.index, 0);
    assert_eq!(h.histo, vec![String::new()]);
}

#[test]
fn history_add_keeps_an_empty_last_line() {
    let mut h = History::initialize();
    h.add("status".to_string());
    assert_eq!(h.index, 1);
    assert_eq!(h.histo, vec!["status".to_string(), String::new()]);
    h.add("reload".to_string());
    assert_eq!(h.index, 2);
    assert_eq!(h.histo, vec!["status".to_string(), "reload".to_string(), String::new()]);
}

#[test]
fn history_get_stays_within_the_lines() {
    let mut h = History::initialize();
    h.add("one".to_string());
    h.add("two".to_string());
    assert_eq!(h.get(0), "one");
    assert_eq!(h.index, 0);
    assert_eq!(h.get(1), "two");
    assert_eq!(h.index, 1);
    assert_eq!(h.get(-1), "one");
    assert_eq!(h.index, 1);
    assert_eq!(h.get(3), "");
    assert_eq!(h.index, 1);
    assert_eq!(h.get(2), "");
    assert_eq!(h.index, 2);
}

#[test]
fn editor_starts_on_a_new_line() {
    let e = Editor::init();
    assert!(!e.quit);
    assert!(e.newline);
    assert!(!e.clear);
    assert!(e.proc_lst.is_empty());
}

#[test]
fn keys_edit_the_line() {
    let mut e = Editor::init();
    let mut h = History::initialize();
    let mut line = String::new();
    for c in "stat".chars() {
        assert_eq!(e.key_manager(Key::Char(c), &mut h, &mut line), None);
    }
    assert_eq!(line, "stat");
    e.key_manager(Key::Backspace, &mut h, &mut line);
    assert_eq!(line, "sta");
    e.key_manager(Key::Other, &mut h, &mut line);
    assert_eq!(line, "sta");
    let mut empty = String::new();
    e.key_manager(Key::Backspace, &mut h, &mut empty);
    assert_eq!(empty, "");
    assert!(!e.quit);
    e.key_manager(Key::Ctrl('l'), &mut h, &mut line);
    assert!(e.clear);
    e.key_manager(Key::Char('q'), &mut h, &mut line);
    assert!(e.quit);
    assert_eq!(line, "sta");
    let mut e = Editor::init();
    e.key_manager(Key::Ctrl('c'), &mut h, &mut line);
    assert!(e.quit);
}

#[test]
fn enter_sends_the_line_and_remembers_it() {
    let mut e = Editor::init();
    e.newline = false;
    let mut h = History::initialize();
    let mut line = "status".to_string();
    assert_eq!(e.key_manager(Key::Char('\n'), &mut h, &mut line), Some("status".to_string()));
    assert!(e.newline);
    assert_eq!(h.histo, vec!["status".to_string(), String::new()]);
    assert_eq!(h.index, 1);
    let mut line = "reload".to_string();
    e.key_manager(Key::Char('\n'), &mut h, &mut line);
    let mut line = String::new();
    e.key_manager(Key::Up, &mut h, &mut line);
    assert_eq!(line, "reload");
    e.key_manager(Key::Up, &mut h, &mut line);
    assert_eq!(line, "status");
    e.key_manager(Key::Up, &mut h, &mut line);
    assert_eq!(line, "status");
    e.key_manager(Key::Down, &mut h, &mut line);
    assert_eq!(line, "reload");
    e.key_manager(Key::Down, &mut h, &mut line);
    assert_eq!(line, "");
    e.key_manager(Key::Down, &mut h, &mut line);
    assert_eq!(line, "");
}

fn report() -> Response {
    Response {
        cmd: CallOn::Status,
        success: Ok(String::new()),
        content: vec![
            Prog { proc_name: "web_0".to_string(), status: State::RUNNING, info: "pid 1 uptime: 0:00:01".to_string() },
            Prog { proc_name: "web_1".to_string(), status: State::FATAL, info: "Command didn't start".to_string() },
        ],
    }
}

#[test]
fn status_report_is_shown_line_by_line() {
    let mut e = Editor::init();
    let text = e.get_status(report());
    assert_eq!(
        text,
        "\n\rweb_0\t\t\tRUNNING\t\tpid 1 uptime: 0:00:01\n\rweb_1\t\t\tFATAL\t\tCommand didn't start"
    );
    assert_eq!(e.proc_lst, vec!["web_0".to_string(), "web_1".to_string()]);
    let empty = Response { cmd: CallOn::Status, success: Ok(String::new()), content: Vec::new() };
    assert_eq!(e.get_status(empty), "");
    assert_eq!(e.proc_lst.len(), 2);
}

#[test]
fn answers_are_added_to_the_line() {
    let mut e = Editor::init();
    let mut line = "status".to_string();
    e.answer(Ok(report()), &mut line);
    assert!(line.starts_with("status\n\rweb_0\t\t\tRUNNING"));
    assert!(line.ends_with("\n\rtaskctl > "));
    assert_eq!(e.proc_lst.len(), 2);

    let mut line = "stop web_0".to_string();
    let stopped = Response {
        cmd: CallOn::Stop("web_0".to_string()),
        success: Ok("web_0: stopped".to_string()),
        content: Vec::new(),
    };
    e.answer(Ok(stopped), &mut line);
    assert_eq!(line, "stop web_0\n\rweb_0: stopped\n\rtaskctl > ");

    let mut line = "start web_0".to_string();
    let refused = Response {
        cmd: CallOn::Start("web_0".to_string()),
        success: Err("ERROR (already started)".to_string()),
        content: Vec::new(),
    };
    e.answer(Ok(refused), &mut line);
    assert_eq!(line, "start web_0\n\rERROR (already started)\n\rtaskctl > ");

    let mut line = "bogus".to_string();
    e.answer(Err("*** Unknown syntax: bogus".to_string()), &mut line);
    assert_eq!(line, "bogus\n\r\t*** Unknown syntax: bogus\n\rtaskctl > ");
    assert_eq!(e.proc_lst.len(), 2);
}
