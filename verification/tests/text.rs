use taskmaster::server::parse::{
    mode_from_string, parse_autorestart, parse_octal, parse_signal, same_text, Signal,
};
use taskmaster::server::loop_exec::Autorestart;
use taskmaster::server::tool::{
    n_name, parse_to_string, push_decimal, push_int, push_two_digits, split, DurationDate,
};

#[test]
fn n_name_appends_index() {
    assert_eq!(n_name("web".to_string(), 3), "web_3");
    assert_eq!(n_name("web".to_string(), 0), "web_0");
    assert_eq!(n_name(String::new(), 12), "_12");
    assert_eq!(n_name("a_b".to_string(), -7), "a_b_-7");
    assert_eq!(n_name("x".to_string(), i64::MAX), "x_9223372036854775807");
    assert_eq!(n_name("x".to_string(), i64::MIN), "x_-9223372036854775808");
}

#[test]
fn decimal_notation_matches_std() {
    for n in [0u64, 1, 9, 10, 11, 99, 100, 101, 1234567890, u64::MAX] {
        let mut s = String::from("n=");
        push_decimal(&mut s, n);
        assert_eq!(s, format!("n={}", n));
    }
    for i in [0i64, -1, 1, -10, 42, i64::MIN, i64::MAX] {
        let mut s = String::new();
        push_int(&mut s, i);
        assert_eq!(s, format!("{}", i));
    }
    for n in [0u64, 5, 9, 10, 59, 123] {
        let mut s = String::new();
        push_two_digits(&mut s, n);
        assert_eq!(s, format!("{:02}", n));
    }
}

#[test]
fn durationdate_shows_hours_minutes_seconds() {
    assert_eq!(0u64.durationdate(), "0:00:00");
    assert_eq!(59u64.durationdate(), "0:00:59");
    assert_eq!(60u64.durationdate(), "0:01:00");
    assert_eq!(3599u64.durationdate(), "0:59:59");
    assert_eq!(3600u64.durationdate(), "1:00:00");
    assert_eq!(3725u64.durationdate(), "1:02:05");
    assert_eq!(360000u64.durationdate(), "100:00:00");
}

#[test]
fn parse_to_string_copies_the_text() {
    assert_eq!(parse_to_string(Some("abc")), Some("abc".to_string()));
    assert_eq!(parse_to_string(None), None);
}

#[test]
fn split_matches_std() {
    for text in ["", " ", "a", "a b", " a", "a ", "a  b", "start web_0", "x y z", "  "] {
        let expected: Vec<String> = text.split(' ').map(|s| s.to_string()).collect();
        assert_eq!(split(text, ' '), expected, "splitting {:?}", text);
    }
    assert_eq!(split("a,b", ','), vec!["a".to_string(), "b".to_string()]);
    assert_eq!(split("héllo wörld", ' '), vec!["héllo".to_string(), "wörld".to_string()]);
}

#[test]
fn same_text_compares_characters() {
    assert!(same_text("", ""));
    assert!(same_text("abc", "abc"));
    assert!(!same_text("abc", "abd"));
    assert!(!same_text("abc", "ab"));
}

#[test]
fn parse_autorestart_reads_boolean_or_text() {
    assert_eq!(parse_autorestart(None, None), None);
    assert_eq!(parse_autorestart(None, Some("unexpected".to_string())), Some(Autorestart::OnError));
    assert_eq!(parse_autorestart(Some(true), None), Some(Autorestart::Always));
    assert_eq!(parse_autorestart(Some(true), Some("x".to_string())), Some(Autorestart::Always));
    assert_eq!(parse_autorestart(Some(false), None), Some(Autorestart::Never));
    assert_eq!(parse_autorestart(Some(false), Some("x".to_string())), Some(Autorestart::Never));
}

#[test]
fn parse_signal_knows_five_names() {
    assert_eq!(parse_signal(Some("TERM")), Signal::SIGTERM);
    assert_eq!(parse_signal(Some("HUP")), Signal::SIGHUP);
    assert_eq!(parse_signal(Some("INT")), Signal::SIGINT);
    assert_eq!(parse_signal(Some("QUIT")), Signal::SIGQUIT);
    assert_eq!(parse_signal(Some("KILL")), Signal::SIGKILL);
    assert_eq!(parse_signal(Some("USR1")), Signal::SIGTERM);
    assert_eq!(parse_signal(Some("term")), Signal::SIGTERM);
    assert_eq!(parse_signal(None), Signal::SIGTERM);
}

#[test]
fn parse_octal_matches_std() {
    for text in [
        "", "+", "0", "7", "8", "022", "+22", "777", "7777", "17777", "37777777777",
        "40000000000", "00000000000000000022", "12a", "-1", " 1", "++1",
    ] {
        assert_eq!(parse_octal(text), u32::from_str_radix(text, 8).ok(), "reading {:?}", text);
    }
}

#[test]
fn mode_from_string_keeps_permission_bits_only() {
    assert_eq!(mode_from_string(Some("022")), Some(0o022));
    assert_eq!(mode_from_string(Some("777")), Some(0o777));
    assert_eq!(mode_from_string(Some("7777")), Some(0o7777));
    assert_eq!(mode_from_string(Some("0")), Some(0));
    assert_eq!(mode_from_string(Some("10000")), None);
    assert_eq!(mode_from_string(Some("17777")), None);
    assert_eq!(mode_from_string(Some("9")), None);
    assert_eq!(mode_from_string(Some("")), None);
    assert_eq!(mode_from_string(None), None);
}
