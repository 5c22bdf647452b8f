use vstd::prelude::*;
use vstd::string::*;

use super::loop_exec::Autorestart;
use super::tool::{parse_to_string, split, split_spec};
use super::yaml::Node;

verus! {

/// The signals a program can be configured to be stopped with.
#[derive(Debug, PartialEq, Eq, Clone, Copy, Structural)]
pub enum Signal {
    SIGTERM,
    SIGHUP,
    SIGINT,
    SIGQUIT,
    SIGKILL,
}

/// Replica count of a program that configures none.
pub const DEFAULT_NUMPROCS: i64 = 1;

/// Restart attempts allowed to a program that configures none.
pub const DEFAULT_STARTRETRIES: i64 = 3;

/// Seconds a program must stay up to count as started, if it configures none.
pub const DEFAULT_STARTTIME: i64 = 0;

/// Seconds granted to a stopping program before it is killed, if it configures none.
pub const DEFAULT_STOPWAITSECS: i64 = 10;

/// File-creation mask of a program that configures none.
pub const DEFAULT_UMASK: u32 = 0o022;

/// Every permission bit a file-creation mask may hold.
pub const MODE_ALL_BITS: u32 = 0o7777;

/// Configuration of one program entry. A field that the source leaves out is
/// `None` (an empty list for `exitcodes`) until the defaults are applied.
#[derive(Debug)]
pub struct File {
    pub path_command: Option<String>,
    pub args: Option<Vec<String>>,
    pub name: Option<String>,
    pub numprocs: Option<i64>,
    pub autostart: Option<bool>,
    pub autorestart: Option<Autorestart>,
    pub exitcodes: Vec<i32>,
    pub starttime: Option<i64>,
    pub startretries: Option<i64>,
    pub stopsignal: Signal,
    pub stopwaitsecs: Option<i64>,
    pub directory: Option<String>,
    pub umask: Option<u32>,
    pub bool_stdout: bool,
    pub bool_stderr: bool,
}

/// Mathematical model of a [`File`].
pub ghost struct FileView {
    pub path_command: Option<Seq<char>>,
    pub args: Option<Seq<Seq<char>>>,
    pub name: Option<Seq<char>>,
    pub numprocs: Option<i64>,
    pub autostart: Option<bool>,
    pub autorestart: Option<Autorestart>,
    pub exitcodes: Seq<i32>,
    pub starttime: Option<i64>,
    pub startretries: Option<i64>,
    pub stopsignal: Signal,
    pub stopwaitsecs: Option<i64>,
    pub directory: Option<Seq<char>>,
    pub umask: Option<u32>,
    pub bool_stdout: bool,
    pub bool_stderr: bool,
}

impl View for File {
    type V = FileView;

    open spec fn view(&self) -> FileView {
        FileView {
            path_command: self.path_command.deep_view(),
            args: self.args.deep_view(),
            name: self.name.deep_view(),
            numprocs: self.numprocs,
            autostart: self.autostart,
            autorestart: self.autorestart,
            exitcodes: self.exitcodes@,
            starttime: self.starttime,
            startretries: self.startretries,
            stopsignal: self.stopsignal,
            stopwaitsecs: self.stopwaitsecs,
            directory: self.directory.deep_view(),
            umask: self.umask,
            bool_stdout: self.bool_stdout,
            bool_stderr: self.bool_stderr,
        }
    }
}

impl Clone for File {
    fn clone(&self) -> (r: Self)
        ensures
            r@ == self@,
    {
        File {
            path_command: copy_text(&self.path_command),
            args: match &self.args {
                Some(args) => Some(copy_texts(args)),
                None => None,
            },
            name: copy_text(&self.name),
            numprocs: self.numprocs,
            autostart: self.autostart,
            autorestart: self.autorestart,
            exitcodes: self.exitcodes.clone(),
            starttime: self.starttime,
            startretries: self.startretries,
            stopsignal: self.stopsignal,
            stopwaitsecs: self.stopwaitsecs,
            directory: copy_text(&self.directory),
            umask: self.umask,
            bool_stdout: self.bool_stdout,
            bool_stderr: self.bool_stderr,
        }
    }
}

/// A copy of an optional text.
pub fn copy_text(text: &Option<String>) -> (r: Option<String>)
    ensures
        r.deep_view() == text.deep_view(),
{
    match text {
        Some(text) => Some(text.clone()),
        None => None,
    }
}

/// A copy of a list of texts.
pub fn copy_texts(texts: &Vec<String>) -> (r: Vec<String>)
    ensures
        r.deep_view() == texts.deep_view(),
{
    let mut r: Vec<String> = Vec::new();
    let mut i: usize = 0;
    while i < texts.len()
        invariant
            i <= texts.len(),
            r.len() == i,
            forall|j: int| 0 <= j < i ==> r@[j]@ == texts@[j]@,
        decreases texts.len() - i,
    {
        r.push(texts[i].clone());
        i = i + 1;
    }
    r
}

impl FileView {
    /// The configuration with every absent field set to its default.
    pub open spec fn with_defaults(self) -> FileView {
        FileView {
            numprocs: Some(self.replicas_or_default()),
            autostart: Some(self.autostart_or_default()),
            autorestart: Some(self.policy()),
            exitcodes: self.accepted_codes(),
            startretries: Some(self.max_attempts()),
            starttime: Some(self.min_uptime()),
            stopwaitsecs: Some(self.grace()),
            umask: Some(self.mask()),
            ..self
        }
    }

    pub open spec fn replicas_or_default(self) -> i64 {
        match self.numprocs {
            Some(n) => n,
            None => DEFAULT_NUMPROCS,
        }
    }

    /// Number of process slots the program asks for: a negative count asks for none.
    pub open spec fn replicas(self) -> nat {
        if self.replicas_or_default() < 0 {
            0
        } else {
            self.replicas_or_default() as nat
        }
    }

    pub open spec fn autostart_or_default(self) -> bool {
        match self.autostart {
            Some(b) => b,
            None => true,
        }
    }

    pub open spec fn policy(self) -> Autorestart {
        match self.autorestart {
            Some(p) => p,
            None => Autorestart::Never,
        }
    }

    pub open spec fn accepted_codes(self) -> Seq<i32> {
        if self.exitcodes.len() == 0 {
            seq![0i32]
        } else {
            self.exitcodes
        }
    }

    pub open spec fn max_attempts(self) -> i64 {
        match self.startretries {
            Some(n) => n,
            None => DEFAULT_STARTRETRIES,
        }
    }

    pub open spec fn min_uptime(self) -> i64 {
        match self.starttime {
            Some(n) => n,
            None => DEFAULT_STARTTIME,
        }
    }

    pub open spec fn grace(self) -> i64 {
        match self.stopwaitsecs {
            Some(n) => n,
            None => DEFAULT_STOPWAITSECS,
        }
    }

    pub open spec fn mask(self) -> u32 {
        match self.umask {
            Some(m) => m,
            None => DEFAULT_UMASK,
        }
    }

    /// The arguments so far; none where the field is absent.
    pub open spec fn args_or_none(self) -> Seq<Seq<char>> {
        match self.args {
            Some(args) => args,
            None => Seq::empty(),
        }
    }

    /// The configuration with its command split at the blanks: the pieces
    /// are added to the arguments, the first of all of them becomes the
    /// command. Without a command there are no arguments.
    pub open spec fn split_command(self) -> FileView {
        match self.path_command {
            Some(command) => {
                let all = self.args_or_none() + split_spec(command, ' ');
                FileView { path_command: Some(all[0]), args: Some(all.skip(1)), ..self }
            },
            None => FileView { args: None, ..self },
        }
    }

    /// A program can be launched once it has a name and a command.
    pub open spec fn launchable(self) -> bool {
        self.name is Some && self.path_command is Some
    }
}

/// The exit codes that a list of a configuration names: each item that is
/// an integer, cut to 32 bits, and zero for any other item.
pub open spec fn codes_of(items: Seq<Node>) -> Seq<i32> {
    items.map_values(
        |item: Node|
            match item.integer() {
                Some(code) => code as i32,
                None => 0i32,
            },
    )
}

/// The program that one entry of a configuration describes, field by field.
/// Arguments are not yet split off the command.
pub open spec fn file_of(doc: Node) -> FileView {
    FileView {
        path_command: doc.field("command"@).text(),
        args: None,
        name: doc.field("name"@).text(),
        numprocs: doc.field("numprocs"@).integer(),
        autostart: doc.field("autostart"@).boolean(),
        autorestart: autorestart_of(
            doc.field("autorestart"@).boolean(),
            doc.field("autorestart"@).text() is Some,
        ),
        exitcodes: codes_of(doc.field("exitcodes"@).items()),
        starttime: doc.field("starttime"@).integer(),
        startretries: doc.field("startretries"@).integer(),
        stopsignal: signal_of(doc.field("stopsignal"@).text()),
        stopwaitsecs: doc.field("stopwaitsecs"@).integer(),
        directory: doc.field("directory"@).text(),
        umask: mode_of(doc.field("umask"@).text()),
        bool_stdout: doc.field("stdout"@) is BadValue,
        bool_stderr: doc.field("stderr"@) is BadValue,
    }
}

/// The text under `key`, if the value there is a text.
pub fn text_at(doc: &Node, key: &str) -> (r: Option<String>)
    ensures
        r.deep_view() == doc.field(key@).text(),
{
    match doc.get(key) {
        Some(value) => parse_to_string(value.as_str()),
        None => None,
    }
}

/// The integer under `key`, if the value there is an integer.
pub fn int_at(doc: &Node, key: &str) -> (r: Option<i64>)
    ensures
        r == doc.field(key@).integer(),
{
    match doc.get(key) {
        Some(value) => value.as_i64(),
        None => None,
    }
}

/// The boolean under `key`, if the value there is a boolean.
pub fn bool_at(doc: &Node, key: &str) -> (r: Option<bool>)
    ensures
        r == doc.field(key@).boolean(),
{
    match doc.get(key) {
        Some(value) => value.as_bool(),
        None => None,
    }
}

/// Whether there is nothing under `key`.
pub fn missing_at(doc: &Node, key: &str) -> (r: bool)
    ensures
        r == (doc.field(key@) is BadValue),
{
    match doc.get(key) {
        Some(value) => value.is_badvalue(),
        None => true,
    }
}

/// The exit codes under `key`.
pub fn codes_at(doc: &Node, key: &str) -> (r: Vec<i32>)
    ensures
        r@ == codes_of(doc.field(key@).items()),
{
    let mut codes: Vec<i32> = Vec::new();
    match doc.get(key) {
        Some(Node::Array(items)) => {
            let mut i: usize = 0;
            while i < items.len()
                invariant
                    i <= items.len(),
                    codes@ == codes_of(items@.take(i as int)),
                decreases items.len() - i,
            {
                let code: i32 = match items[i].as_i64() {
                    Some(code) => #[verifier::truncate]
                    (code as i32),
                    None => 0,
                };
                codes.push(code);
                i = i + 1;
            }
        },
        _ => {
        },
    }
    codes
}

impl File {
    pub fn from_yaml(yaml_file: &Node) -> (r: Self)
        ensures
            r@ == file_of(*yaml_file),
    {
        let opt_name = text_at(yaml_file, "name");
        let exitcodes = codes_at(yaml_file, "exitcodes");
        let umask_text = text_at(yaml_file, "umask");
        let signal_text = text_at(yaml_file, "stopsignal");
        File {
            path_command: text_at(yaml_file, "command"),
            name: opt_name,
            numprocs: int_at(yaml_file, "numprocs"),
            autostart: bool_at(yaml_file, "autostart"),
            autorestart: parse_autorestart(
                bool_at(yaml_file, "autorestart"),
                text_at(yaml_file, "autorestart"),
            ),
            exitcodes,
            stopwaitsecs: int_at(yaml_file, "stopwaitsecs"),
            starttime: int_at(yaml_file, "starttime"),
            stopsignal: parse_signal(
                match &signal_text {
                    Some(text) => Some(text.as_str()),
                    None => None,
                },
            ),
            startretries: int_at(yaml_file, "startretries"),
            directory: text_at(yaml_file, "directory"),
            umask: mode_from_string(
                match &umask_text {
                    Some(text) => Some(text.as_str()),
                    None => None,
                },
            ),
            args: None,
            bool_stdout: missing_at(yaml_file, "stdout"),
            bool_stderr: missing_at(yaml_file, "stderr"),
        }
    }

    /// Splits the command at its blanks: the first piece stays the command,
    /// the others are added to the arguments.
    pub fn get_args(&mut self)
        ensures
            final(self)@ == old(self)@.split_command(),
    {
        let pieces = match &self.path_command {
            Some(command) => split(command.as_str(), ' '),
            None => {
                self.args = None;
                return ;
            },
        };
        let mut all: Vec<String> = match self.args.take() {
            Some(args) => args,
            None => Vec::new(),
        };
        let ghost before = all.deep_view();
        let ghost words = pieces.deep_view();
        let mut pieces = pieces;
        all.append(&mut pieces);
        let first = all.remove(0);
        assert(all.deep_view() =~= (before + words).skip(1));
        self.path_command = Some(first);
        self.args = Some(all);
    }

    /// Splits the arguments off the command, where there is a command.
    pub fn init_args(&mut self)
        ensures
            final(self)@ == old(self)@.split_command(),
    {
        if self.path_command.is_some() {
            self.get_args();
        } else {
            self.args = None;
        }
    }

    pub fn prgm_is_launchable(&self) -> (r: bool)
        ensures
            r == self@.launchable(),
    {
        self.name.is_some() && self.path_command.is_some()
    }

    pub fn set_conf_default(&mut self)
        ensures
            final(self)@ == old(self)@.with_defaults(),
    {
        self.set_numprocs_default();
        self.set_autostart_default();
        self.set_autorestart_default();
        self.set_exitcode_default();
        self.set_start_retries_default();
        self.set_startsecs_default();
        self.set_stopwaitsecs_default();
        self.set_umask_default();
    }

    pub fn set_numprocs_default(&mut self)
        ensures
            final(self)@ == (FileView {
                numprocs: Some(old(self)@.replicas_or_default()),
                ..old(self)@
            }),
    {
        if self.numprocs.is_none() {
            self.numprocs = Some(DEFAULT_NUMPROCS);
        }
    }

    pub fn set_autostart_default(&mut self)
        ensures
            final(self)@ == (FileView {
                autostart: Some(old(self)@.autostart_or_default()),
                ..old(self)@
            }),
    {
        if self.autostart.is_none() {
            self.autostart = Some(true);
        }
    }

    pub fn set_autorestart_default(&mut self)
        ensures
            final(self)@ == (FileView { autorestart: Some(old(self)@.policy()), ..old(self)@ }),
    {
        if self.autorestart.is_none() {
            self.autorestart = Some(Autorestart::Never);
        }
    }

    pub fn set_exitcode_default(&mut self)
        ensures
            final(self)@ == (FileView { exitcodes: old(self)@.accepted_codes(), ..old(self)@ }),
    {
        if self.exitcodes.len() == 0 {
            self.exitcodes.push(0);
            assert(self.exitcodes@ =~= seq![0i32]);
        }
    }

    pub fn set_start_retries_default(&mut self)
        ensures
            final(self)@ == (FileView {
                startretries: Some(old(self)@.max_attempts()),
                ..old(self)@
            }),
    {
        if self.startretries.is_none() {
            self.startretries = Some(DEFAULT_STARTRETRIES);
        }
    }

    pub fn set_startsecs_default(&mut self)
        ensures
            final(self)@ == (FileView { starttime: Some(old(self)@.min_uptime()), ..old(self)@ }),
    {
        if self.starttime.is_none() {
            self.starttime = Some(DEFAULT_STARTTIME);
        }
    }

    pub fn set_stopwaitsecs_default(&mut self)
        ensures
            final(self)@ == (FileView { stopwaitsecs: Some(old(self)@.grace()), ..old(self)@ }),
    {
        if self.stopwaitsecs.is_none() {
            self.stopwaitsecs = Some(DEFAULT_STOPWAITSECS);
        }
    }

    pub fn set_umask_default(&mut self)
        ensures
            final(self)@ == (FileView { umask: Some(old(self)@.mask()), ..old(self)@ }),
    {
        if self.umask.is_none() {
            self.umask = Some(DEFAULT_UMASK);
        }
    }
}

/// The restart policy that a configuration entry asks for: a boolean chooses
/// between `Always` and `Never`, any text without a boolean asks for `OnError`.
pub open spec fn autorestart_of(opt_bool: Option<bool>, text_given: bool) -> Option<Autorestart> {
    match opt_bool {
        Some(true) => Some(Autorestart::Always),
        Some(false) => Some(Autorestart::Never),
        None => if text_given {
            Some(Autorestart::OnError)
        } else {
            None
        },
    }
}

pub fn parse_autorestart(opt_bool: Option<bool>, opt_string: Option<String>) -> (y: Option<
    Autorestart,
>)
    ensures
        y == autorestart_of(opt_bool, opt_string is Some),
{
    match opt_bool {
        None => match opt_string {
            None => None,
            Some(_) => Some(Autorestart::OnError),
        },
        Some(true) => Some(Autorestart::Always),
        Some(false) => Some(Autorestart::Never),
    }
}

/// The signal that a configured name stands for; `SIGTERM` for an unknown
/// name and where none is given.
pub open spec fn signal_of(sig: Option<Seq<char>>) -> Signal {
    match sig {
        Some(s) => if s == "HUP"@ {
            Signal::SIGHUP
        } else if s == "INT"@ {
            Signal::SIGINT
        } else if s == "QUIT"@ {
            Signal::SIGQUIT
        } else if s == "KILL"@ {
            Signal::SIGKILL
        } else {
            Signal::SIGTERM
        },
        None => Signal::SIGTERM,
    }
}

pub fn parse_signal(sig: Option<&str>) -> (r: Signal)
    ensures
        r == signal_of(sig.deep_view()),
{
    match sig {
        Some(signal) => {
            if same_text(signal, "HUP") {
                Signal::SIGHUP
            } else if same_text(signal, "INT") {
                Signal::SIGINT
            } else if same_text(signal, "QUIT") {
                Signal::SIGQUIT
            } else if same_text(signal, "KILL") {
                Signal::SIGKILL
            } else {
                Signal::SIGTERM
            }
        },
        None => Signal::SIGTERM,
    }
}

/// The value of an octal digit.
pub open spec fn octal_digit(c: char) -> Option<nat> {
    if c == '0' {
        Some(0)
    } else if c == '1' {
        Some(1)
    } else if c == '2' {
        Some(2)
    } else if c == '3' {
        Some(3)
    } else if c == '4' {
        Some(4)
    } else if c == '5' {
        Some(5)
    } else if c == '6' {
        Some(6)
    } else if c == '7' {
        Some(7)
    } else {
        None
    }
}

/// The number that a row of octal digits writes; `None` if one of the
/// characters is no octal digit. The empty row writes zero.
pub open spec fn octal_digits(s: Seq<char>) -> Option<nat>
    decreases s.len(),
{
    if s.len() == 0 {
        Some(0)
    } else {
        match (octal_digits(s.drop_last()), octal_digit(s.last())) {
            (Some(v), Some(d)) => Some(v * 8 + d),
            _ => None,
        }
    }
}

/// The number that `s` writes in octal notation: one octal digit or more,
/// after a plus sign or without one.
pub open spec fn octal_value(s: Seq<char>) -> Option<nat> {
    let digits = if s.len() > 0 && s[0] == '+' {
        s.skip(1)
    } else {
        s
    };
    if digits.len() == 0 {
        None
    } else {
        octal_digits(digits)
    }
}

/// A row of octal digits writes no less than any row it begins with.
pub proof fn lemma_octal_prefix(s: Seq<char>, k: int)
    requires
        0 <= k <= s.len(),
        octal_digits(s) is Some,
    ensures
        octal_digits(s.take(k)) is Some,
        octal_digits(s.take(k))->0 <= octal_digits(s)->0,
    decreases s.len() - k,
{
    if k == s.len() {
        assert(s.take(k) =~= s);
    } else {
        lemma_octal_prefix(s.drop_last(), k);
        assert(s.drop_last().take(k) =~= s.take(k));
    }
}

fn octal_digit_of(c: char) -> (r: Option<u32>)
    ensures
        match r {
            Some(d) => octal_digit(c) == Some(d as nat) && d < 8,
            None => octal_digit(c) is None,
        },
{
    if c == '0' {
        Some(0)
    } else if c == '1' {
        Some(1)
    } else if c == '2' {
        Some(2)
    } else if c == '3' {
        Some(3)
    } else if c == '4' {
        Some(4)
    } else if c == '5' {
        Some(5)
    } else if c == '6' {
        Some(6)
    } else if c == '7' {
        Some(7)
    } else {
        None
    }
}

/// The octal number that `text` writes, where it writes one that fits.
pub fn parse_octal(text: &str) -> (r: Option<u32>)
    ensures
        r == match octal_value(text@) {
            Some(v) => if v <= u32::MAX {
                Some(v as u32)
            } else {
                None
            },
            None => None,
        },
{
    let n = text.unicode_len();
    let first: usize = if n > 0 && text.get_char(0) == '+' {
        1
    } else {
        0
    };
    if first == n {
        return None;
    }
    let ghost digits = text@.skip(first as int);
    let mut acc: u32 = 0;
    let mut i: usize = first;
    assert(text@.skip(0) =~= text@);
    while i < n
        invariant
            first <= i <= n,
            n == text@.len(),
            digits == text@.skip(first as int),
            octal_value(text@) == octal_digits(digits),
            octal_digits(digits.take(i - first)) == Some(acc as nat),
        decreases n - i,
    {
        let ghost upto = digits.take(i - first + 1);
        assert(upto.drop_last() =~= digits.take(i - first));
        let d = match octal_digit_of(text.get_char(i)) {
            Some(d) => d,
            None => {
                proof {
                    if octal_digits(digits) is Some {
                        lemma_octal_prefix(digits, i - first + 1);
                    }
                }
                return None;
            },
        };
        if acc > (u32::MAX - d) / 8 {
            proof {
                if octal_digits(digits) is Some {
                    lemma_octal_prefix(digits, i - first + 1);
                }
            }
            return None;
        }
        acc = acc * 8 + d;
        i = i + 1;
    }
    assert(digits.take(n - first) =~= digits);
    Some(acc)
}

/// `nix::sys::stat::Mode::from_bits`: the bits themselves where each of them
/// is a permission bit, a set-id bit or the sticky bit, else `None`.
#[verifier::external_body]
fn mode_from_bits(bits: u32) -> (r: Option<u32>)
    ensures
        r == (if bits & !MODE_ALL_BITS == 0 {
            Some(bits)
        } else {
            None
        }),
{
    nix::sys::stat::Mode::from_bits(bits).map(|mode| mode.bits())
}

/// The file-creation mask that `text` writes in octal notation; `None` for a
/// text that writes no number, or one with a bit that no mode has.
pub open spec fn mode_of(text: Option<Seq<char>>) -> Option<u32> {
    match text {
        Some(t) => match octal_value(t) {
            Some(v) => if v <= u32::MAX && (v as u32) & !MODE_ALL_BITS == 0 {
                Some(v as u32)
            } else {
                None
            },
            None => None,
        },
        None => None,
    }
}

pub fn mode_from_string(str: Option<&str>) -> (r: Option<u32>)
    ensures
        r == mode_of(str.deep_view()),
{
    match str {
        Some(str) => match parse_octal(str) {
            Some(param) => mode_from_bits(param),
            None => None,
        },
        None => None,
    }
}

/// Whether two texts hold the same characters.
pub fn same_text(a: &str, b: &str) -> (r: bool)
    ensures
        r == (a@ == b@),
{
    let n = a.unicode_len();
    if n != b.unicode_len() {
        return false;
    }
    let mut i: usize = 0;
    while i < n
        invariant
            i <= n,
            n == a@.len(),
            n == b@.len(),
            forall|j: int| 0 <= j < i ==> a@[j] == b@[j],
        decreases n - i,
    {
        if a.get_char(i) != b.get_char(i) {
            return false;
        }
        i = i + 1;
    }
    assert(a@ =~= b@);
    true
}

} // verus!
