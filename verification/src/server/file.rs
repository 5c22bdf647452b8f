use vstd::prelude::*;
use vstd::string::*;

use vstd::utf8::encode_utf8;

use super::parse::{bool_at, text_at};
use super::tool::two_digits;
use super::yaml::Node;

verus! {

/// Where the output of one process goes. `file_stdout` and `file_stderr`
/// hold the path of the file that is open for each stream, once there is one.
#[derive(Debug)]
pub struct FileLog {
    pub redirect_stderr: Option<bool>,
    pub redirect_stdout: Option<bool>,
    pub path_stdout_logfile: Option<String>,
    pub path_stderr_logfile: Option<String>,
    pub file_stdout: Option<String>,
    pub file_stderr: Option<String>,
    pub name: Option<String>,
}

/// Mathematical model of a [`FileLog`].
pub ghost struct FileLogView {
    pub redirect_stderr: Option<bool>,
    pub redirect_stdout: Option<bool>,
    pub path_stdout_logfile: Option<Seq<char>>,
    pub path_stderr_logfile: Option<Seq<char>>,
    pub file_stdout: Option<Seq<char>>,
    pub file_stderr: Option<Seq<char>>,
    pub name: Option<Seq<char>>,
}

impl View for FileLog {
    type V = FileLogView;

    open spec fn view(&self) -> FileLogView {
        FileLogView {
            redirect_stderr: self.redirect_stderr,
            redirect_stdout: self.redirect_stdout,
            path_stdout_logfile: self.path_stdout_logfile.deep_view(),
            path_stderr_logfile: self.path_stderr_logfile.deep_view(),
            file_stdout: self.file_stdout.deep_view(),
            file_stderr: self.file_stderr.deep_view(),
            name: self.name.deep_view(),
        }
    }
}

/// What one entry of a configuration says of the output of its program.
pub open spec fn log_of(task_file: Node, task_name: Option<Seq<char>>) -> FileLogView {
    FileLogView {
        path_stdout_logfile: task_file.field("stdout"@).text(),
        path_stderr_logfile: task_file.field("stderr"@).text(),
        redirect_stderr: task_file.field("redirect_stderr"@).boolean(),
        redirect_stdout: task_file.field("redirect_stdout"@).boolean(),
        file_stdout: None,
        file_stderr: None,
        name: task_name,
    }
}

/// The patterns that this library writes the time in: the time of day
/// that goes into the names of log files, and the date that the exit of a
/// process is reported with.
pub open spec fn known_pattern(pattern: Seq<char>) -> bool {
    pattern == "%H:%M:%S"@ || pattern == "%b %d %H:%M %p"@
}

/// A time of day as it is written: hours, minutes and seconds, two digits
/// each, with colons between them.
pub open spec fn clock_of(hour: nat, minute: nat, second: nat) -> Seq<char> {
    two_digits(hour) + ":"@ + two_digits(minute) + ":"@ + two_digits(second)
}

/// Whether the text writes a time of day: hours up to 23, minutes up to
/// 59, and seconds up to 60, which a leap second reaches.
pub open spec fn is_clock(text: Seq<char>) -> bool {
    exists|hour: nat, minute: nat, second: nat|
        hour < 24 && minute < 60 && second <= 60 && text == #[trigger] clock_of(
            hour,
            minute,
            second,
        )
}

/// The three letters that stand for the month with the number `month`,
/// from 1 to 12.
pub open spec fn month_name(month: nat) -> Seq<char> {
    if month == 1 {
        "Jan"@
    } else if month == 2 {
        "Feb"@
    } else if month == 3 {
        "Mar"@
    } else if month == 4 {
        "Apr"@
    } else if month == 5 {
        "May"@
    } else if month == 6 {
        "Jun"@
    } else if month == 7 {
        "Jul"@
    } else if month == 8 {
        "Aug"@
    } else if month == 9 {
        "Sep"@
    } else if month == 10 {
        "Oct"@
    } else if month == 11 {
        "Nov"@
    } else {
        "Dec"@
    }
}

/// A date as the exit of a process is reported with it: the month's name,
/// the day and the time in hours and minutes, and whether that is before
/// noon or after.
pub open spec fn stamp_of(month: nat, day: nat, hour: nat, minute: nat) -> Seq<char> {
    month_name(month) + " "@ + two_digits(day) + " "@ + two_digits(hour) + ":"@ + two_digits(
        minute,
    ) + " "@ + (if hour < 12 {
        "AM"@
    } else {
        "PM"@
    })
}

/// Whether the text writes such a date.
pub open spec fn is_stamp(text: Seq<char>) -> bool {
    exists|month: nat, day: nat, hour: nat, minute: nat|
        1 <= month <= 12 && 1 <= day <= 31 && hour < 24 && minute < 60 && text
            == #[trigger] stamp_of(month, day, hour, minute)
}

/// `chrono::Local::now` and `chrono::DateTime::format`: the local time of
/// the call, written as `pattern` says. Which time that is, is not
/// claimed, only how it is written: `%H`, `%M`, `%S` and `%d` give two
/// digits each, `%b` the English three-letter name of the month, `%p`
/// `AM` before noon and `PM` from noon on, and what stands between them
/// is kept. The patterns are kept to those that `chrono` is known to take.
#[verifier::external_body]
fn local_time(pattern: &str) -> (r: String)
    requires
        known_pattern(pattern@),
    ensures
        pattern@ == "%H:%M:%S"@ ==> is_clock(r@),
        pattern@ == "%b %d %H:%M %p"@ ==> is_stamp(r@),
{
    chrono::Local::now().format(pattern).to_string()
}

/// The local time of day, as it goes into the names of log files.
pub fn clock_text() -> (r: String)
    ensures
        is_clock(r@),
{
    local_time("%H:%M:%S")
}

/// The local date, as the exit of a process is reported with it.
pub fn stamp_text() -> (r: String)
    ensures
        is_stamp(r@),
{
    local_time("%b %d %H:%M %p")
}

/// The SHA-1 digest of a row of bytes.
pub uninterp spec fn sha1_of(data: Seq<u8>) -> Seq<u8>;

/// `sha1::Sha1` through `Digest::new`, `update` and `finalize`: the SHA-1
/// digest of `data`, which depends on the bytes alone and is 20 bytes long.
#[verifier::external_body]
fn sha1_digest(data: &[u8]) -> (r: Vec<u8>)
    ensures
        r@ == sha1_of(data@),
        r@.len() == 20,
{
    let mut hasher = <sha1::Sha1 as sha1::Digest>::new();
    sha1::Digest::update(&mut hasher, data);
    sha1::Digest::finalize(hasher).to_vec()
}

/// The character that writes the hexadecimal digit `d`, for `0 <= d <= 15`.
pub open spec fn hex_digit(d: int) -> char {
    if d < 10 {
        super::tool::digit_char(d)
    } else if d == 10 {
        'a'
    } else if d == 11 {
        'b'
    } else if d == 12 {
        'c'
    } else if d == 13 {
        'd'
    } else if d == 14 {
        'e'
    } else {
        'f'
    }
}

/// A row of bytes in hexadecimal notation: two digits for each byte, the
/// high one first.
pub open spec fn hex_text(data: Seq<u8>) -> Seq<char> {
    Seq::new(
        2 * data.len(),
        |i: int|
            if i % 2 == 0 {
                hex_digit(data[i / 2] as int / 16)
            } else {
                hex_digit(data[i / 2] as int % 16)
            },
    )
}

/// `hex::encode`: the bytes in hexadecimal notation, two lower-case digits
/// for each byte.
#[verifier::external_body]
fn hex_encode(data: &[u8]) -> (r: String)
    ensures
        r@ == hex_text(data@),
{
    hex::encode(data)
}

/// The tag that tells the log files of one process from others: the
/// digest of the process name, the time and the extension, in hexadecimal
/// notation.
pub open spec fn generic_name(name: Seq<char>, time: Seq<char>, extension: Seq<char>) -> Seq<char> {
    hex_text(sha1_of(encode_utf8(name + time + extension)))
}

/// The path of the log file that is made for a process whose
/// configuration names none.
pub open spec fn generic_path(name: Seq<char>, time: Seq<char>, extension: Seq<char>) -> Seq<char> {
    "./"@ + name + extension + "----taskmaster-"@ + generic_name(name, time, extension).take(5)
        + ".log"@
}

impl FileLogView {
    /// The name of the process; empty where there is none.
    pub open spec fn label(self) -> Seq<char> {
        match self.name {
            Some(name) => name,
            None => Seq::empty(),
        }
    }

    /// The log with a file chosen for each stream that has none yet.
    pub open spec fn with_files(self, time: Seq<char>) -> FileLogView {
        FileLogView {
            file_stdout: match self.file_stdout {
                Some(path) => Some(path),
                None => Some(generic_path(self.label(), time, "-stdout"@)),
            },
            file_stderr: match self.file_stderr {
                Some(path) => Some(path),
                None => Some(generic_path(self.label(), time, "-stderr"@)),
            },
            ..self
        }
    }
}

/// Something that chooses the files that its processes write to.
pub trait Files {
    /// Chooses a file for each stream that has none yet; `time` is the time
    /// of day that goes into the names.
    fn files(&mut self, time: &str);
}

impl FileLog {
    /// The tag of the log files of this process at the time `time`.
    pub fn generic_name_at(&self, extension: &str, time: &str) -> (r: String)
        ensures
            r@ == generic_name(self@.label(), time@, extension@),
            r@.len() == 40,
    {
        let mut final_str = match &self.name {
            Some(name) => name.clone(),
            None => String::new(),
        };
        final_str.append(time);
        final_str.append(extension);
        let digest = sha1_digest(final_str.as_str().as_bytes());
        hex_encode(digest.as_slice())
    }

    /// The tag of the log files of this process at the present time.
    pub fn create_generic_name(&self, extension: &str) -> (r: String)
        ensures
            exists|time: Seq<char>| r@ == generic_name(self@.label(), time, extension@),
    {
        let str_date = clock_text();
        self.generic_name_at(extension, str_date.as_str())
    }

    /// The path of the log file that is made for the stream `extension` of
    /// this process at the time `time`.
    pub fn create_generic_file(&self, extension: &str, time: &str) -> (r: Option<String>)
        ensures
            r.deep_view() == Some(generic_path(self@.label(), time@, extension@)),
    {
        let generic = self.generic_name_at(extension, time);
        let tag = generic.as_str().substring_char(0, 5);
        let mut namefile = String::from_str("./");
        match &self.name {
            Some(name) => {
                namefile.append(name.as_str());
            },
            None => {},
        }
        namefile.append(extension);
        namefile.append("----taskmaster-");
        namefile.append(tag);
        namefile.append(".log");
        Some(namefile)
    }

    /// Chooses a file for each stream that has none yet.
    pub fn create_generic_files(&mut self, time: &str)
        ensures
            final(self)@ == old(self)@.with_files(time@),
    {
        if self.file_stdout.is_none() {
            let stdout = self.create_generic_file("-stdout", time);
            self.file_stdout = stdout;
        }
        if self.file_stderr.is_none() {
            let stderr = self.create_generic_file("-stderr", time);
            self.file_stderr = stderr;
        }
    }

    pub fn from_file(task_file: &Node, task_name: Option<String>) -> (r: Self)
        ensures
            r@ == log_of(*task_file, task_name.deep_view()),
    {
        FileLog {
            path_stdout_logfile: text_at(task_file, "stdout"),
            path_stderr_logfile: text_at(task_file, "stderr"),
            redirect_stderr: bool_at(task_file, "redirect_stderr"),
            redirect_stdout: bool_at(task_file, "redirect_stdout"),
            file_stdout: None,
            file_stderr: None,
            name: task_name,
        }
    }
}

/// A copy of an optional text.
pub fn clone_option(opt_arg: Option<&String>) -> (r: Option<String>)
    ensures
        r.deep_view() == opt_arg.deep_view(),
{
    match opt_arg {
        Some(x) => Some(x.clone()),
        None => None,
    }
}

impl Clone for FileLog {
    fn clone(&self) -> (r: Self)
        ensures
            r@ == self@,
    {
        Self {
            redirect_stderr: self.redirect_stderr,
            redirect_stdout: self.redirect_stdout,
            path_stdout_logfile: clone_option(self.path_stdout_logfile.as_ref()),
            path_stderr_logfile: clone_option(self.path_stderr_logfile.as_ref()),
            file_stdout: clone_option(self.file_stdout.as_ref()),
            file_stderr: clone_option(self.file_stderr.as_ref()),
            name: clone_option(self.name.as_ref()),
        }
    }
}

} // verus!
