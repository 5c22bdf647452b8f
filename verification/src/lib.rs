use vstd::prelude::*;
use vstd::string::*;

pub mod client;
pub mod server;

use server::parse::same_text;
use server::tool::{split, split_spec};

verus! {

/// Lifecycle state of one supervised process slot.
#[derive(Clone, Copy, Debug, PartialEq, Eq, Structural)]
pub enum State {
    /// Stopped on request, or never started.
    STOPPED,
    /// Spawned, and not yet up for the time its program asks for.
    STARTING,
    RUNNING,
    /// Asked to stop, and not yet seen to exit.
    STOPPING,
    /// Exited, and about to be spawned again.
    BACKOFF,
    EXITED,
    /// Given up: only a start request leaves this state.
    FATAL,
    /// The state of a slot that was never set up.
    UNKNOWN,
}

impl State {
    /// The states in which a slot owns a child process.
    pub open spec fn live(self) -> bool {
        self == State::STARTING || self == State::RUNNING || self == State::STOPPING
    }

    /// The states that a slot leaves only on a request or when its child exits.
    pub open spec fn stable(self) -> bool {
        self == State::STOPPED || self == State::RUNNING || self == State::FATAL
    }

    /// The name of the state, as it is shown.
    pub open spec fn label(self) -> Seq<char> {
        match self {
            State::STOPPED => "STOPPED"@,
            State::STARTING => "STARTING"@,
            State::RUNNING => "RUNNING"@,
            State::STOPPING => "STOPPING"@,
            State::BACKOFF => "BACKOFF"@,
            State::EXITED => "EXITED"@,
            State::FATAL => "FATAL"@,
            State::UNKNOWN => "UNKNOWN"@,
        }
    }

    pub fn name(&self) -> (r: &'static str)
        ensures
            r@ == self.label(),
    {
        match self {
            State::STOPPED => "STOPPED",
            State::STARTING => "STARTING",
            State::RUNNING => "RUNNING",
            State::STOPPING => "STOPPING",
            State::BACKOFF => "BACKOFF",
            State::EXITED => "EXITED",
            State::FATAL => "FATAL",
            State::UNKNOWN => "UNKNOWN",
        }
    }
}

impl Default for State {
    fn default() -> (r: Self)
        ensures
            r == State::UNKNOWN,
    {
        State::UNKNOWN
    }
}

/// One line of a status report: a process, its state and what is known of it.
#[derive(Debug)]
pub struct Prog {
    pub proc_name: String,
    pub status: State,
    pub info: String,
}

/// Mathematical model of a [`Prog`].
pub ghost struct ProgView {
    pub proc_name: Seq<char>,
    pub status: State,
    pub info: Seq<char>,
}

impl View for Prog {
    type V = ProgView;

    open spec fn view(&self) -> ProgView {
        ProgView { proc_name: self.proc_name@, status: self.status, info: self.info@ }
    }
}

impl Default for Prog {
    fn default() -> (r: Self)
        ensures
            r@ == (ProgView {
                proc_name: Seq::empty(),
                status: State::UNKNOWN,
                info: Seq::empty(),
            }),
    {
        Prog { proc_name: String::new(), status: State::UNKNOWN, info: String::new() }
    }
}

/// A command of the control protocol.
#[derive(Debug)]
pub enum CallOn {
    Start(String),
    Stop(String),
    Restart(String),
    Status,
    Reload,
}

/// Mathematical model of a [`CallOn`].
pub ghost enum CallOnView {
    Start(Seq<char>),
    Stop(Seq<char>),
    Restart(Seq<char>),
    Status,
    Reload,
}

impl View for CallOn {
    type V = CallOnView;

    open spec fn view(&self) -> CallOnView {
        match self {
            CallOn::Start(name) => CallOnView::Start(name@),
            CallOn::Stop(name) => CallOnView::Stop(name@),
            CallOn::Restart(name) => CallOnView::Restart(name@),
            CallOn::Status => CallOnView::Status,
            CallOn::Reload => CallOnView::Reload,
        }
    }
}

impl Clone for CallOn {
    fn clone(&self) -> (r: Self)
        ensures
            r@ == self@,
    {
        match self {
            CallOn::Start(name) => CallOn::Start(name.clone()),
            CallOn::Stop(name) => CallOn::Stop(name.clone()),
            CallOn::Restart(name) => CallOn::Restart(name.clone()),
            CallOn::Status => CallOn::Status,
            CallOn::Reload => CallOn::Reload,
        }
    }
}

/// The text of a result, whichever way it went.
pub open spec fn outcome_view(r: Result<String, String>) -> Result<Seq<char>, Seq<char>> {
    match r {
        Ok(m) => Ok(m@),
        Err(m) => Err(m@),
    }
}

/// The models of the lines of a status report.
pub open spec fn progs_view(content: Seq<Prog>) -> Seq<ProgView> {
    content.map_values(|p: Prog| p@)
}

/// The answer to a command: the command, how it went, and the state of
/// every process after it.
#[derive(Debug)]
pub struct Response {
    pub cmd: CallOn,
    pub success: Result<String, String>,
    pub content: Vec<Prog>,
}

/// Mathematical model of a [`Response`].
pub ghost struct ResponseView {
    pub cmd: CallOnView,
    pub success: Result<Seq<char>, Seq<char>>,
    pub content: Seq<ProgView>,
}

impl View for Response {
    type V = ResponseView;

    open spec fn view(&self) -> ResponseView {
        ResponseView {
            cmd: self.cmd@,
            success: outcome_view(self.success),
            content: progs_view(self.content@),
        }
    }
}

/// A command as it is sent, with the number of words it was typed in.
#[derive(Debug)]
pub struct Request {
    pub cmd: CallOn,
    pub len: usize,
}

/// Mathematical model of a [`Request`].
pub ghost struct RequestView {
    pub cmd: CallOnView,
    pub len: usize,
}

impl View for Request {
    type V = RequestView;

    open spec fn view(&self) -> RequestView {
        RequestView { cmd: self.cmd@, len: self.len }
    }
}

impl Clone for Request {
    fn clone(&self) -> (r: Self)
        ensures
            r@ == self@,
    {
        Request { cmd: self.cmd.clone(), len: self.len }
    }
}

/// The largest message, in bytes, that either side of the protocol takes.
pub const BUFFER_SIZE: usize = 1500;

/// Word number `i` of a command line; empty where the line has no such word.
pub open spec fn word(command: Seq<Seq<char>>, i: int) -> Seq<char> {
    if 0 <= i < command.len() {
        command[i]
    } else {
        Seq::empty()
    }
}

/// What `std` prints for a list of texts in its `{:?}` format.
pub uninterp spec fn debug_text(words: Seq<Seq<char>>) -> Seq<char>;

/// `format!("{:?}", ..)` on a list of texts: the list as `std` prints it for
/// debugging, which depends on the texts alone.
#[verifier::external_body]
fn debug_words(words: &Vec<String>) -> (r: String)
    ensures
        r@ == debug_text(words.deep_view()),
{
    format!("{:?}", words)
}

/// The answer to a process name that no status report has shown.
pub open spec fn no_such_process(name: Seq<char>) -> Seq<char> {
    name + ": ERROR (no such process)"@
}

/// The process name `wanted`, if it is one of `known`.
pub open spec fn known_proc(wanted: Seq<char>, known: Seq<Seq<char>>) -> Result<
    Seq<char>,
    Seq<char>,
> {
    if known.contains(wanted) {
        Ok(wanted)
    } else {
        Err(no_such_process(wanted))
    }
}

/// The command that the words of a line ask for. A single word asks for the
/// status or a reload. Otherwise the second word names a process, which
/// has to be a known one, and the first says what to do with it. `shown` is
/// the whole line as it is quoted in the answer to an unknown request.
pub open spec fn command_of(
    command: Seq<Seq<char>>,
    len: usize,
    known: Seq<Seq<char>>,
    shown: Seq<char>,
) -> Result<CallOnView, Seq<char>> {
    let verb = word(command, 0);
    if len == 1 {
        if verb == "Status"@ || verb == "status"@ {
            Ok(CallOnView::Status)
        } else if verb == "Reload"@ || verb == "reload"@ {
            Ok(CallOnView::Reload)
        } else {
            Err("*** Unknown syntax: "@ + verb)
        }
    } else {
        match known_proc(word(command, 1), known) {
            Ok(name) => if verb == "Start"@ || verb == "start"@ {
                Ok(CallOnView::Start(name))
            } else if verb == "Stop"@ || verb == "stop"@ {
                Ok(CallOnView::Stop(name))
            } else if verb == "Restart"@ || verb == "restart"@ {
                Ok(CallOnView::Restart(name))
            } else {
                Err("** Unknown syntax: "@ + shown)
            },
            Err(e) => Err(e),
        }
    }
}

/// The request that a typed line makes: the line is split at its blanks,
/// and more than two words are too many.
pub open spec fn request_of(line: Seq<char>, known: Seq<Seq<char>>) -> Result<
    RequestView,
    Seq<char>,
> {
    let words = split_spec(line, ' ');
    if words.len() <= 2 {
        match command_of(words, words.len() as usize, known, debug_text(words)) {
            Ok(cmd) => Ok(RequestView { cmd, len: words.len() as usize }),
            Err(e) => Err(e),
        }
    } else {
        Err("Too many arguments."@)
    }
}

/// The model of the result of reading a command.
pub open spec fn command_view(r: Result<CallOn, String>) -> Result<CallOnView, Seq<char>> {
    match r {
        Ok(cmd) => Ok(cmd@),
        Err(e) => Err(e@),
    }
}

/// The model of the result of reading a request.
pub open spec fn request_view(r: Result<Request, String>) -> Result<RequestView, Seq<char>> {
    match r {
        Ok(req) => Ok(req@),
        Err(e) => Err(e@),
    }
}

/// Whether `wanted` is one of `texts`.
pub fn contains_text(texts: &Vec<String>, wanted: &str) -> (r: bool)
    ensures
        r == texts.deep_view().contains(wanted@),
{
    let mut i: usize = 0;
    while i < texts.len()
        invariant
            i <= texts.len(),
            forall|j: int| 0 <= j < i ==> texts.deep_view()[j] != wanted@,
        decreases texts.len() - i,
    {
        assert(texts.deep_view()[i as int] == texts@[i as int]@);
        if same_text(texts[i].as_str(), wanted) {
            return true;
        }
        i = i + 1;
    }
    false
}

impl Request {
    /// Reads a typed line as a request; `lst_proc` holds the process names
    /// that are known.
    pub fn parse(cmd: &String, lst_proc: Vec<String>) -> (r: Result<Self, String>)
        ensures
            request_view(r) == request_of(cmd@, lst_proc.deep_view()),
    {
        let args: Vec<String> = split(cmd.as_str(), ' ');
        let len = args.len();
        if len <= 2 {
            return match Self::is_command(args, len, lst_proc) {
                Ok(cmd) => Ok(Self { cmd, len }),
                Err(e) => Err(e),
            };
        }
        Err(String::from_str("Too many arguments."))
    }

    pub fn proc_exist(proc_requested: String, lst_proc: Vec<String>) -> (r: Result<String, String>)
        ensures
            outcome_view(r) == known_proc(proc_requested@, lst_proc.deep_view()),
    {
        if contains_text(&lst_proc, proc_requested.as_str()) {
            Ok(proc_requested)
        } else {
            let mut message = proc_requested;
            message.append(": ERROR (no such process)");
            Err(message)
        }
    }

    /// The answer to two words of which the first asks for nothing known;
    /// `shown` is the line as it is quoted.
    pub fn unknown_syntax(shown: String) -> (r: String)
        ensures
            r@ == "** Unknown syntax: "@ + shown@,
    {
        let mut message = String::from_str("** Unknown syntax: ");
        message.append(shown.as_str());
        message
    }

    pub fn is_command(command: Vec<String>, len: usize, proc_list: Vec<String>) -> (r: Result<
        CallOn,
        String,
    >)
        ensures
            command_view(r) == command_of(
                command.deep_view(),
                len,
                proc_list.deep_view(),
                debug_text(command.deep_view()),
            ),
    {
        let verb: &str = if command.len() > 0 {
            command[0].as_str()
        } else {
            proof {
                reveal_strlit("");
            }
            assert(""@ =~= Seq::<char>::empty());
            ""
        };
        if len == 1 {
            if same_text(verb, "Status") || same_text(verb, "status") {
                Ok(CallOn::Status)
            } else if same_text(verb, "Reload") || same_text(verb, "reload") {
                Ok(CallOn::Reload)
            } else {
                let mut message = String::from_str("*** Unknown syntax: ");
                message.append(verb);
                Err(message)
            }
        } else {
            let wanted = if command.len() > 1 {
                command[1].clone()
            } else {
                String::new()
            };
            match Self::proc_exist(wanted, proc_list) {
                Ok(proc) => {
                    if same_text(verb, "Start") || same_text(verb, "start") {
                        Ok(CallOn::Start(proc))
                    } else if same_text(verb, "Stop") || same_text(verb, "stop") {
                        Ok(CallOn::Stop(proc))
                    } else if same_text(verb, "Restart") || same_text(verb, "restart") {
                        Ok(CallOn::Restart(proc))
                    } else {
                        Err(Self::unknown_syntax(debug_words(&command)))
                    }
                },
                Err(e) => Err(e),
            }
        }
    }

    /// Whether a message of `size` bytes fits the buffer that it is read into.
    pub fn fits(size: usize) -> (r: bool)
        ensures
            r == (size <= BUFFER_SIZE),
    {
        size <= BUFFER_SIZE
    }
}

} // verus!
